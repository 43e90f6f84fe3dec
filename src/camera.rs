use vstd::prelude::*;
use vstd::string::StrSliceExecFns;
use vstd::string::StringExecFns;
use crate::text::{contains, contains_exec, decimal, push_decimal};

verus! {

broadcast use vstd::string::group_string_axioms;

/// Errors of a capture device.
pub enum CameraError {
    OpenError(String),
    FrameError(String),
    NotFound,
}

/// One entry of the device list: its numeric index and a readable name.
pub struct CameraInfo {
    pub index: u32,
    pub name: String,
}

/// `s` with every leading repetition of `p` removed (nothing when `p` is empty).
pub open spec fn strip_leading(s: Seq<char>, p: Seq<char>) -> Seq<char>
    decreases s.len(),
{
    if p.len() > 0 && p.len() <= s.len() && s.subrange(0, p.len() as int) == p {
        strip_leading(s.subrange(p.len() as int, s.len() as int), p)
    } else {
        s
    }
}

pub open spec fn is_digit(c: char) -> bool {
    '0' <= c && c <= '9'
}

pub open spec fn digit_value(c: char) -> int {
    (c as u32) as int - ('0' as u32) as int
}

/// The number that the decimal digits `s` spell.
pub open spec fn digits_value(s: Seq<char>) -> int
    decreases s.len(),
{
    if s.len() == 0 {
        0
    } else {
        digits_value(s.drop_last()) * 10 + digit_value(s.last())
    }
}

pub open spec fn all_digits(s: Seq<char>) -> bool {
    forall|i: int| 0 <= i < s.len() ==> is_digit(#[trigger] s[i])
}

/// An unsigned 32-bit number in decimal: an optional `+`, then one or more
/// digits whose value fits.
pub open spec fn parse_u32(s: Seq<char>) -> Option<u32> {
    let d = if s.len() > 0 && s[0] == '+' {
        s.drop_first()
    } else {
        s
    };
    if d.len() > 0 && all_digits(d) && digits_value(d) <= u32::MAX as int {
        Some(digits_value(d) as u32)
    } else {
        None
    }
}

/// The device index in a name such as `video3` or `/dev/video3`.
pub open spec fn device_index_of(name: Seq<char>) -> Option<u32> {
    parse_u32(strip_leading(strip_leading(name, "/dev/video"@), "video"@))
}

proof fn lemma_digits_value_nonneg(s: Seq<char>)
    requires
        all_digits(s),
    ensures
        digits_value(s) >= 0,
    decreases s.len(),
{
    if s.len() > 0 {
        lemma_digits_value_nonneg(s.drop_last());
    }
}

proof fn lemma_digits_value_grows(s: Seq<char>, k: int)
    requires
        all_digits(s),
        0 <= k <= s.len(),
    ensures
        digits_value(s.subrange(0, k)) <= digits_value(s),
    decreases s.len(),
{
    if k < s.len() {
        assert(s.drop_last() =~= s.subrange(0, s.len() - 1));
        lemma_digits_value_grows(s.drop_last(), k);
        assert(s.drop_last().subrange(0, k) =~= s.subrange(0, k));
        lemma_digits_value_nonneg(s.drop_last());
    } else {
        assert(s.subrange(0, k) =~= s);
    }
}

/// The position after all leading repetitions of `p` in `s`, from `start` on.
fn skip_leading(s: &str, n: usize, start: usize, p: &str) -> (r: usize)
    requires
        n == s@.len(),
        start <= n,
    ensures
        start <= r <= n,
        s@.subrange(r as int, n as int) == strip_leading(s@.subrange(start as int, n as int), p@),
{
    let m = p.unicode_len();
    let mut pos = start;
    while m > 0 && m <= n - pos && crate::text::occurs_at_exec(s, n, p, m, pos)
        invariant
            n == s@.len(),
            m == p@.len(),
            start <= pos <= n,
            strip_leading(s@.subrange(pos as int, n as int), p@) == strip_leading(
                s@.subrange(start as int, n as int),
                p@,
            ),
        decreases n - pos,
    {
        let ghost rest = s@.subrange(pos as int, n as int);
        assert(rest.subrange(0, m as int) =~= s@.subrange(pos as int, pos + m));
        assert(rest.subrange(m as int, rest.len() as int) =~= s@.subrange(pos + m, n as int));
        pos = pos + m;
    }
    let ghost rest = s@.subrange(pos as int, n as int);
    if m > 0 && m <= n - pos {
        assert(rest.subrange(0, m as int) =~= s@.subrange(pos as int, pos + m));
    }
    pos
}

/// Reads the device index from a device name: `video0`, `/dev/video0`, or a
/// bare number.
pub fn extract_device_index(device_name: &str) -> (r: Option<u32>)
    ensures
        r == device_index_of(device_name@),
{
    let n = device_name.unicode_len();
    let a = skip_leading(device_name, n, 0, "/dev/video");
    assert(device_name@.subrange(0, n as int) =~= device_name@);
    let b = skip_leading(device_name, n, a, "video");
    let ghost body = device_name@.subrange(b as int, n as int);
    assert(body == strip_leading(strip_leading(device_name@, "/dev/video"@), "video"@));
    let mut i = b;
    if i < n && device_name.get_char(i) == '+' {
        i = i + 1;
    }
    let ghost d = device_name@.subrange(i as int, n as int);
    assert(d == (if body.len() > 0 && body[0] == '+' {
        body.drop_first()
    } else {
        body
    })) by {
        if body.len() > 0 && body[0] == '+' {
            assert(body.drop_first() =~= d);
        } else {
            assert(body =~= d);
        }
    }
    if i == n {
        return None;
    }
    let start = i;
    let ghost expected = if all_digits(d) && digits_value(d) <= u32::MAX as int {
        Some(digits_value(d) as u32)
    } else {
        None
    };
    assert(device_index_of(device_name@) == expected);
    let mut v: u64 = 0;
    while i < n
        invariant
            n == device_name@.len(),
            start <= i <= n,
            d == device_name@.subrange(start as int, n as int),
            device_index_of(device_name@) == expected,
            expected == (if all_digits(d) && digits_value(d) <= u32::MAX as int {
                Some(digits_value(d) as u32)
            } else {
                None
            }),
            all_digits(d.subrange(0, i - start)),
            v as int == digits_value(d.subrange(0, i - start)),
            v <= u32::MAX,
        decreases n - i,
    {
        let c = device_name.get_char(i);
        if c < '0' || c > '9' {
            assert(d[i - start] == c);
            assert(!is_digit(d[i - start]));
            assert(!all_digits(d));
            return None;
        }
        let ghost prev = d.subrange(0, i - start);
        let ghost next = d.subrange(0, i - start + 1);
        assert(next.drop_last() =~= prev);
        assert(next.last() == c);
        v = v * 10 + (c as u32 - '0' as u32) as u64;
        assert(v as int == digits_value(next));
        assert(all_digits(next)) by {
            assert forall|k: int| 0 <= k < next.len() implies is_digit(#[trigger] next[k]) by {
                if k < prev.len() {
                    assert(next[k] == prev[k]);
                }
            }
        }
        i = i + 1;
        if v > u32::MAX as u64 {
            proof {
                if all_digits(d) {
                    lemma_digits_value_grows(d, i - start);
                    assert(digits_value(d) > u32::MAX as int);
                }
            }
            return None;
        }
    }
    assert(d.subrange(0, i - start) =~= d);
    Some(v as u32)
}

/// The four sensor layouts that a raw camera may report.
#[derive(PartialEq, Eq, Structural, Clone, Copy, Debug)]
pub enum BayerFormat {
    Rggb,
    Bggr,
    Grbg,
    Gbrg,
}

impl BayerFormat {
    pub open spec fn spec_name(self) -> Seq<char> {
        match self {
            BayerFormat::Rggb => "rggb"@,
            BayerFormat::Bggr => "bggr"@,
            BayerFormat::Grbg => "grbg"@,
            BayerFormat::Gbrg => "gbrg"@,
        }
    }

    /// The layout's name as the conversion stage spells it.
    pub fn as_str(&self) -> (r: &'static str)
        ensures
            r@ == self.spec_name(),
    {
        match self {
            BayerFormat::Rggb => "rggb",
            BayerFormat::Bggr => "bggr",
            BayerFormat::Grbg => "grbg",
            BayerFormat::Gbrg => "gbrg",
        }
    }
}

/// What a device's format listing says of its sensor layout: the first of
/// the four layouts named, quoted in upper case in `info` or in any case
/// (`lower` is `info` in lower case); else RGGB where the listing speaks of
/// Bayer or RG16 at all; else none.
pub open spec fn bayer_of_listing(info: Seq<char>, lower: Seq<char>) -> Option<BayerFormat> {
    if contains(info, "'RGGB'"@) || contains(lower, "rggb"@) {
        Some(BayerFormat::Rggb)
    } else if contains(info, "'BGGR'"@) || contains(lower, "bggr"@) {
        Some(BayerFormat::Bggr)
    } else if contains(info, "'GRBG'"@) || contains(lower, "grbg"@) {
        Some(BayerFormat::Grbg)
    } else if contains(info, "'GBRG'"@) || contains(lower, "gbrg"@) {
        Some(BayerFormat::Gbrg)
    } else if contains(info, "Bayer"@) || contains(info, "RG16"@) {
        Some(BayerFormat::Rggb)
    } else {
        None
    }
}

/// A name for what `str::to_lowercase` makes of a text.
pub uninterp spec fn lower_of(s: Seq<char>) -> Seq<char>;

/// Relies on `str::to_lowercase`: the lower-case form, which depends on the
/// characters alone.
pub assume_specification[ str::to_lowercase ](s: &str) -> (r: String)
    ensures
        r@ == lower_of(s@),
;

/// The sensor layout named by a format listing, given the listing and its
/// lower-case form.
pub fn bayer_format_from_listing_lower(info: &str, lower: &str) -> (r: Option<BayerFormat>)
    ensures
        r == bayer_of_listing(info@, lower@),
{
    if contains_exec(info, "'RGGB'") || contains_exec(lower, "rggb") {
        Some(BayerFormat::Rggb)
    } else if contains_exec(info, "'BGGR'") || contains_exec(lower, "bggr") {
        Some(BayerFormat::Bggr)
    } else if contains_exec(info, "'GRBG'") || contains_exec(lower, "grbg") {
        Some(BayerFormat::Grbg)
    } else if contains_exec(info, "'GBRG'") || contains_exec(lower, "gbrg") {
        Some(BayerFormat::Gbrg)
    } else if contains_exec(info, "Bayer") || contains_exec(info, "RG16") {
        Some(BayerFormat::Rggb)
    } else {
        None
    }
}

/// The sensor layout named by a device's format listing, if any.
pub fn bayer_format_from_listing(info: &str) -> (r: Option<BayerFormat>)
    ensures
        r == bayer_of_listing(info@, lower_of(info@)),
{
    let lower = info.to_lowercase();
    bayer_format_from_listing_lower(info, lower.as_str())
}

/// How a standard device is asked to pick its format.
#[derive(PartialEq, Eq, Structural, Clone, Copy, Debug)]
pub enum FormatStrategy {
    /// Let the device choose.
    NoPreference,
    AbsoluteHighestFrameRate,
    AbsoluteHighestResolution,
}

/// One way of opening a device.
#[derive(PartialEq, Eq, Structural, Clone, Copy, Debug)]
pub enum OpenAttempt {
    /// A raw-sensor pipeline with demosaic and RGB conversion.
    BayerPipeline,
    /// The standard capture path with a format strategy.
    Standard(FormatStrategy),
}

pub open spec fn open_plan(raw_sensor: bool) -> Seq<OpenAttempt> {
    let standard = seq![
        OpenAttempt::Standard(FormatStrategy::NoPreference),
        OpenAttempt::Standard(FormatStrategy::AbsoluteHighestFrameRate),
        OpenAttempt::Standard(FormatStrategy::AbsoluteHighestResolution),
    ];
    if raw_sensor {
        seq![OpenAttempt::BayerPipeline] + standard
    } else {
        standard
    }
}

/// The ways to try, in order, when opening a device; the first that opens
/// wins. A raw-sensor device tries its pipeline first and falls back to the
/// standard path.
pub fn open_attempts(raw_sensor: bool) -> (r: Vec<OpenAttempt>)
    ensures
        r@ == open_plan(raw_sensor),
{
    let mut v: Vec<OpenAttempt> = Vec::new();
    if raw_sensor {
        v.push(OpenAttempt::BayerPipeline);
    }
    v.push(OpenAttempt::Standard(FormatStrategy::NoPreference));
    v.push(OpenAttempt::Standard(FormatStrategy::AbsoluteHighestFrameRate));
    v.push(OpenAttempt::Standard(FormatStrategy::AbsoluteHighestResolution));
    assert(v@ =~= open_plan(raw_sensor));
    v
}

pub open spec fn all_failed_message(index: u32, last_error: Seq<char>) -> Seq<char> {
    "Camera "@ + decimal(index as nat) + ": All format attempts failed. Last error: "@
        + last_error
}

/// The error reported once every way of opening device `index` has failed,
/// carrying the last failure's text.
pub fn all_attempts_failed(index: u32, last_error: &str) -> (r: CameraError)
    ensures
        r matches CameraError::OpenError(m) && m@ == all_failed_message(index, last_error@),
{
    let mut m = String::from_str("Camera ");
    push_decimal(&mut m, index as u64);
    m.append(": All format attempts failed. Last error: ");
    m.append(last_error);
    CameraError::OpenError(m)
}

/// The first position at or after `i` that holds `c`, or the length of `s`.
pub open spec fn find_from(s: Seq<char>, i: int, c: char) -> int
    decreases s.len() - i,
{
    if i < 0 || i >= s.len() {
        s.len() as int
    } else if s[i] == c {
        i
    } else {
        find_from(s, i + 1, c)
    }
}

/// The second `:`-separated field of a line: from its first colon to the
/// next colon or the line's end. `None` when the line has no colon.
pub open spec fn second_field(line: Seq<char>) -> Option<Seq<char>> {
    let c1 = find_from(line, 0, ':');
    if c1 >= line.len() {
        None
    } else {
        Some(line.subrange(c1 + 1, find_from(line, c1 + 1, ':')))
    }
}

/// The characters with the Unicode White_Space property.
pub open spec fn is_white_space(c: char) -> bool {
    let u = c as u32;
    (0x09 <= u && u <= 0x0D) || u == 0x20 || u == 0x85 || u == 0xA0 || u == 0x1680 || (0x2000 <= u
        && u <= 0x200A) || u == 0x2028 || u == 0x2029 || u == 0x202F || u == 0x205F || u == 0x3000
}

pub open spec fn strip_front_white_space(s: Seq<char>) -> Seq<char>
    decreases s.len(),
{
    if s.len() > 0 && is_white_space(s[0]) {
        strip_front_white_space(s.drop_first())
    } else {
        s
    }
}

pub open spec fn strip_back_white_space(s: Seq<char>) -> Seq<char>
    decreases s.len(),
{
    if s.len() > 0 && is_white_space(s.last()) {
        strip_back_white_space(s.drop_last())
    } else {
        s
    }
}

/// `s` without its leading and trailing white space.
pub open spec fn trimmed(s: Seq<char>) -> Seq<char> {
    strip_back_white_space(strip_front_white_space(s))
}

/// What to do after one way of opening a device has been tried.
pub enum OpenDecision {
    /// Keep the device as this attempt opened it.
    Use(OpenAttempt),
    /// Try the attempt at this position of the plan next.
    TryNext(usize),
    /// Every attempt failed: report this error.
    GiveUp(CameraError),
}

/// Where trying the plan from position `k` on ends, when attempt `i` turned
/// out as `outcomes[i]` (`Ok` if it opened, else the failure's text): the
/// first attempt that opens, or the text of the last failure.
pub open spec fn open_result(
    plan: Seq<OpenAttempt>,
    outcomes: Seq<Result<(), Seq<char>>>,
    k: int,
) -> Result<OpenAttempt, Seq<char>>
    decreases plan.len() - k,
{
    if k < 0 || k >= plan.len() {
        Err(Seq::empty())
    } else if outcomes[k] is Ok {
        Ok(plan[k])
    } else if k + 1 < plan.len() {
        open_result(plan, outcomes, k + 1)
    } else {
        Err(outcomes[k]->Err_0)
    }
}

/// Trying a plan of attempts in order picks the first attempt that opens;
/// when none opens, the failure reported is the last one.
pub proof fn lemma_first_opening_attempt_wins(
    plan: Seq<OpenAttempt>,
    outcomes: Seq<Result<(), Seq<char>>>,
)
    requires
        plan.len() > 0,
        outcomes.len() == plan.len(),
    ensures
        (exists|j: int| 0 <= j < plan.len() && outcomes[j] is Ok) ==> ({
            let j = choose|j: int|
                0 <= j < plan.len() && outcomes[j] is Ok && forall|i: int|
                    0 <= i < j ==> outcomes[i] is Err;
            &&& 0 <= j < plan.len()
            &&& open_result(plan, outcomes, 0) == Ok::<OpenAttempt, Seq<char>>(plan[j])
        }),
        (forall|j: int| 0 <= j < plan.len() ==> outcomes[j] is Err) ==> open_result(
            plan,
            outcomes,
            0,
        ) == Err::<OpenAttempt, Seq<char>>(outcomes[plan.len() - 1]->Err_0),
{
    if exists|j: int| 0 <= j < plan.len() && outcomes[j] is Ok {
        let j0 = choose|j: int| 0 <= j < plan.len() && outcomes[j] is Ok;
        lemma_least_ok(outcomes, j0);
        let j = choose|j: int|
            0 <= j < plan.len() && outcomes[j] is Ok && forall|i: int|
                0 <= i < j ==> outcomes[i] is Err;
        lemma_open_result_skips(plan, outcomes, 0, j);
    } else {
        lemma_open_result_all_fail(plan, outcomes, 0);
    }
}

proof fn lemma_least_ok(outcomes: Seq<Result<(), Seq<char>>>, j0: int)
    requires
        0 <= j0 < outcomes.len(),
        outcomes[j0] is Ok,
    ensures
        exists|j: int|
            0 <= j <= j0 && outcomes[j] is Ok && forall|i: int| 0 <= i < j ==> outcomes[i] is Err,
    decreases j0,
{
    if forall|i: int| 0 <= i < j0 ==> outcomes[i] is Err {
    } else {
        let j1 = choose|i: int| 0 <= i < j0 && !(outcomes[i] is Err);
        lemma_least_ok(outcomes, j1);
    }
}

proof fn lemma_open_result_skips(
    plan: Seq<OpenAttempt>,
    outcomes: Seq<Result<(), Seq<char>>>,
    k: int,
    j: int,
)
    requires
        0 <= k <= j < plan.len(),
        outcomes.len() == plan.len(),
        outcomes[j] is Ok,
        forall|i: int| k <= i < j ==> outcomes[i] is Err,
    ensures
        open_result(plan, outcomes, k) == Ok::<OpenAttempt, Seq<char>>(plan[j]),
    decreases j - k,
{
    if k < j {
        lemma_open_result_skips(plan, outcomes, k + 1, j);
    }
}

proof fn lemma_open_result_all_fail(
    plan: Seq<OpenAttempt>,
    outcomes: Seq<Result<(), Seq<char>>>,
    k: int,
)
    requires
        0 <= k < plan.len(),
        outcomes.len() == plan.len(),
        forall|j: int| 0 <= j < plan.len() ==> outcomes[j] is Err,
    ensures
        open_result(plan, outcomes, k) == Err::<OpenAttempt, Seq<char>>(
            outcomes[plan.len() - 1]->Err_0,
        ),
    decreases plan.len() - k,
{
    if k + 1 < plan.len() {
        lemma_open_result_all_fail(plan, outcomes, k + 1);
    }
}

/// Decides after attempt `k` of `plan` was tried with `outcome`: an attempt
/// that opened is used; a failure moves on to the next attempt, and after the
/// last one gives up with an open error carrying this failure's text.
pub fn decide_after_attempt(
    index: u32,
    plan: &Vec<OpenAttempt>,
    k: usize,
    outcome: &Result<(), String>,
) -> (r: OpenDecision)
    requires
        k < plan@.len(),
    ensures
        outcome is Ok ==> (r matches OpenDecision::Use(a) && a == plan@[k as int]),
        outcome is Err && k + 1 < plan@.len() ==> (r matches OpenDecision::TryNext(n) && n == k
            + 1),
        outcome is Err && k + 1 == plan@.len() ==> (r matches OpenDecision::GiveUp(
            CameraError::OpenError(m),
        ) && m@ == all_failed_message(index, (*outcome)->Err_0@)),
{
    match outcome {
        Ok(()) => OpenDecision::Use(plan[k]),
        Err(e) => {
            if k < plan.len() - 1 {
                OpenDecision::TryNext(k + 1)
            } else {
                OpenDecision::GiveUp(all_attempts_failed(index, e.as_str()))
            }
        },
    }
}

/// The layout to demosaic with: the one detected, else RGGB.
pub fn bayer_format_or_default(detected: Option<BayerFormat>) -> (r: BayerFormat)
    ensures
        r == (match detected {
            Some(f) => f,
            None => BayerFormat::Rggb,
        }),
{
    match detected {
        Some(f) => f,
        None => BayerFormat::Rggb,
    }
}

/// A captured frame as delivered: exactly `width * height * 3` bytes, else a
/// frame error.
pub fn check_frame_size(data: Vec<u8>, width: u32, height: u32) -> (r: Result<Vec<u8>, CameraError>)
    ensures
        r is Ok <==> data@.len() == (width as int) * (height as int) * 3,
        r matches Ok(f) ==> f@ == data@,
        r is Err ==> (r matches Err(CameraError::FrameError(_))),
{
    assert((width as int) * (height as int) * 3 <= u128::MAX) by (nonlinear_arith)
        requires
            width <= u32::MAX,
            height <= u32::MAX,
    ;
    assert(0 <= (width as int) * (height as int)) by (nonlinear_arith);
    let expected: u128 = (width as u128) * (height as u128) * 3;
    if data.len() as u128 != expected {
        let mut m = String::from_str("Frame size mismatch. Expected ");
        push_decimal(&mut m, if expected > u64::MAX as u128 { u64::MAX } else { expected as u64 });
        m.append(", got ");
        push_decimal(&mut m, data.len() as u64);
        return Err(CameraError::FrameError(m));
    }
    Ok(data)
}

/// The card name in a device's information text, from the line starting at
/// `i` on: the first line that mentions `Card type` and has a second
/// `:`-field gives that field, trimmed.
pub open spec fn card_type_from(info: Seq<char>, i: int) -> Option<Seq<char>>
    decreases info.len() - i,
{
    if i < 0 || i > info.len() {
        None
    } else {
        let e = find_from(info, i, '\n');
        let line = info.subrange(i, e);
        if e < i {
            None
        } else if contains(line, "Card type"@) && second_field(line) is Some {
            Some(trimmed(second_field(line)->Some_0))
        } else if e >= info.len() {
            None
        } else {
            card_type_from(info, e + 1)
        }
    }
}

proof fn lemma_find_from_bounds(s: Seq<char>, i: int, c: char)
    requires
        0 <= i <= s.len(),
    ensures
        i <= find_from(s, i, c) <= s.len(),
        find_from(s, i, c) < s.len() ==> s[find_from(s, i, c)] == c,
    decreases s.len() - i,
{
    if i < s.len() && s[i] != c {
        lemma_find_from_bounds(s, i + 1, c);
    }
}

/// Relies on `str::trim`: the text without the leading and trailing
/// characters that have the Unicode White_Space property.
pub assume_specification<'a>[ str::trim ](s: &'a str) -> (r: &'a str)
    ensures
        r@ == trimmed(s@),
;

fn find_from_exec(s: &str, n: usize, i: usize, c: char) -> (r: usize)
    requires
        n == s@.len(),
        i <= n,
    ensures
        r == find_from(s@, i as int, c),
{
    let mut j = i;
    while j < n && s.get_char(j) != c
        invariant
            n == s@.len(),
            i <= j <= n,
            find_from(s@, i as int, c) == find_from(s@, j as int, c),
        decreases n - j,
    {
        j = j + 1;
    }
    j
}

fn second_field_exec(line: &str) -> (r: Option<&str>)
    ensures
        r matches Some(f) ==> second_field(line@) == Some(f@),
        r is None ==> second_field(line@) is None,
{
    let n = line.unicode_len();
    let c1 = find_from_exec(line, n, 0, ':');
    if c1 >= n {
        return None;
    }
    let c2 = find_from_exec(line, n, c1 + 1, ':');
    proof {
        lemma_find_from_bounds(line@, c1 + 1, ':');
    }
    Some(line.substring_char(c1 + 1, c2))
}

/// The card name that `v4l2-ctl --info` reports for a device, if any.
pub fn card_type_from_info(info: &str) -> (r: Option<String>)
    ensures
        r matches Some(name) ==> card_type_from(info@, 0) == Some(name@),
        r is None ==> card_type_from(info@, 0) is None,
{
    let n = info.unicode_len();
    let mut i: usize = 0;
    while i <= n
        invariant
            n == info@.len(),
            card_type_from(info@, 0) == card_type_from(info@, i as int),
        decreases n + 1 - i,
    {
        let e = find_from_exec(info, n, i, '\n');
        proof {
            lemma_find_from_bounds(info@, i as int, '\n');
        }
        let line = info.substring_char(i, e);
        if contains_exec(line, "Card type") {
            match second_field_exec(line) {
                Some(field) => {
                    return Some(String::from_str(field.trim()));
                },
                None => {},
            }
        }
        if e >= n {
            return None;
        }
        i = e + 1;
    }
    None
}

} // verus!
