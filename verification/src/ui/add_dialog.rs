//! What New Task's fields read: a count of connections, the part of a file wanted, and the
//! address itself.

pub mod sheet;

use vstd::prelude::*;
use crate::ui::slider::ten_to;
use crate::text::{
    all_digits, any_white, chars_of, contains_char, contains_text, contains_whitespace, decimal,
    decimal_chars, eq_ignore_ascii_case, has_infix, is_white, lemma_decimal_reads_back,
    lemma_trim_twice, longer_than, parse_unsigned, remove_separators, same_ignoring_ascii_case,
    string_from_chars, trim, trim_end, trim_start, trimmed, unsigned_of, utf8_len,
    without_separators,
};

verus! {

/// The most connections one download opens.
pub const MAX_CONNECTIONS: u16 = 32;

/// The clipboard and the address field are read only up to this many bytes: an address is
/// never longer.
pub const CLIPBOARD_LIMIT: usize = 1000;

/// The count a connections field holds, if it holds one: `from_str` of a `u32` on the trimmed
/// text, from one to the most.
pub open spec fn count_of(text: Seq<char>) -> Option<u16> {
    match unsigned_of(trim(text), u32::MAX as nat) {
        Some(n) => if 1 <= n <= MAX_CONNECTIONS {
            Some(n as u16)
        } else {
            None
        },
        None => None,
    }
}

/// The number in the connections field: one to `MAX_CONNECTIONS`, or why not.
pub fn parse_count(text: &str) -> (r: Result<u16, String>)
    ensures
        match r {
            Ok(n) => count_of(text@) == Some(n),
            Err(e) => count_of(text@) is None && e@ == "Connections must be a number from 1 to 32."@,
        },
{
    let t = trimmed(text);
    match parse_unsigned(t.as_slice(), u32::MAX as u64) {
        Some(n) if 1 <= n && n <= MAX_CONNECTIONS as u64 => Ok(n as u16),
        _ => Err(String::from_str("Connections must be a number from 1 to 32.")),
    }
}

/// A connections field as Settings and a download's window read it: empty or `auto`, in any
/// case, is None, the engine's own judgement; anything else a count, or nothing at all.
pub open spec fn connections_of(text: Seq<char>) -> Option<Option<u16>> {
    let t = trim(text);
    if t.len() == 0 || same_ignoring_ascii_case(t, "auto"@) {
        Some(None)
    } else {
        match count_of(t) {
            Some(n) => Some(Some(n)),
            None => None,
        }
    }
}

pub fn parse_connections(text: &str) -> (r: Result<Option<u16>, String>)
    ensures
        match r {
            Ok(c) => connections_of(text@) == Some(c),
            Err(e) => connections_of(text@) is None && e@
                == "Connections must be a number from 1 to 32."@,
        },
{
    let t = trimmed(text);
    let auto = chars_of("auto");
    if t.len() == 0 || eq_ignore_ascii_case(t.as_slice(), auto.as_slice()) {
        return Ok(None);
    }
    let shown = string_from_chars(t.as_slice());
    proof {
        lemma_trim_twice(text@);
    }
    match parse_count(shown.as_str()) {
        Ok(n) => Ok(Some(n)),
        Err(e) => Err(e),
    }
}

/// A range field's number: the trimmed text with its spaces and commas taken out, nothing at
/// all when that is empty, or a whole number of bytes; `Err` when it is neither.
pub open spec fn range_number(text: Seq<char>) -> Result<Option<nat>, ()> {
    let t = without_separators(trim(text));
    if t.len() == 0 {
        Ok(None)
    } else {
        match unsigned_of(t, u64::MAX as nat) {
            Some(n) => Ok(Some(n)),
            None => Err(()),
        }
    }
}

/// Why a range field was refused: it is no whole number.
pub open spec fn not_bytes() -> Seq<char> {
    "A range is counted in whole bytes."@
}

/// Why a range was refused: it does not lie inside a file of `size` bytes.
pub open spec fn outside(size: nat) -> Seq<char> {
    "The file is "@ + decimal(size) + " bytes; the range must lie inside it."@
}

/// Why a range was refused: its end is not after its start.
pub open spec fn backwards() -> Seq<char> {
    "A range ends after it starts."@
}

/// The part of the file the two range fields ask for: `start-end` in bytes, the end excluded
/// and left off when empty, or None for the whole file -- both empty, or a start of zero with
/// the end empty or at the file's size, whatever the size, none included; or why the fields
/// cannot be read as a range.
pub open spec fn part_spec(start: Seq<char>, end: Seq<char>, size: Option<u64>) -> Result<
    Option<Seq<char>>,
    Seq<char>,
> {
    match range_number(start) {
        Err(_) => Err(not_bytes()),
        Ok(first) => match range_number(end) {
            Err(_) => Err(not_bytes()),
            Ok(last) => {
                let from: nat = match first {
                    Some(n) => n,
                    None => 0,
                };
                if from == 0 && (last is None || last->0 == size->0 && size is Some) {
                    Ok(None)
                } else if size is Some && (from >= size->0 || (last is Some && last->0 > size->0)) {
                    Err(outside(size->0 as nat))
                } else if last is Some && last->0 <= from {
                    Err(backwards())
                } else {
                    Ok(
                        Some(
                            decimal(from) + "-"@ + match last {
                                Some(n) => decimal(n),
                                None => Seq::<char>::empty(),
                            },
                        ),
                    )
                }
            },
        },
    }
}

/// Reads one range field.
fn range_field(text: &str) -> (r: Result<Option<u64>, ()>)
    ensures
        match r {
            Ok(Some(n)) => range_number(text@) == Ok::<Option<nat>, ()>(Some(n as nat)),
            Ok(None) => range_number(text@) == Ok::<Option<nat>, ()>(None),
            Err(_) => range_number(text@) is Err,
        },
{
    let t = trimmed(text);
    let t = remove_separators(t.as_slice());
    if t.len() == 0 {
        return Ok(None);
    }
    match parse_unsigned(t.as_slice(), u64::MAX) {
        Some(n) => Ok(Some(n)),
        None => Err(()),
    }
}

/// The two range fields as the row keeps them: `start-end` in bytes, the end excluded, or None
/// for the whole file -- both empty, or a start of zero with the end empty or at the file's
/// size.
pub fn part_of_file(start: &str, end: &str, size: Option<u64>) -> (r: Result<Option<String>, String>)
    ensures
        match r {
            Ok(Some(s)) => part_spec(start@, end@, size) == Ok::<Option<Seq<char>>, Seq<char>>(
                Some(s@),
            ),
            Ok(None) => part_spec(start@, end@, size) == Ok::<Option<Seq<char>>, Seq<char>>(None),
            Err(e) => part_spec(start@, end@, size) == Err::<Option<Seq<char>>, Seq<char>>(e@),
        },
{
    let first = match range_field(start) {
        Ok(n) => n,
        Err(_) => return Err(String::from_str("A range is counted in whole bytes.")),
    };
    let last = match range_field(end) {
        Ok(n) => n,
        Err(_) => return Err(String::from_str("A range is counted in whole bytes.")),
    };
    let from: u64 = match first {
        Some(n) => n,
        None => 0,
    };
    let whole = from == 0 && match last {
        None => true,
        Some(e) => match size {
            Some(s) => e == s,
            None => false,
        },
    };
    if whole {
        return Ok(None);
    }
    if let Some(size) = size {
        let past = match last {
            Some(e) => e > size,
            None => false,
        };
        if from >= size || past {
            let mut words = chars_of("The file is ");
            let mut number = decimal_chars(size);
            let mut rest = chars_of(" bytes; the range must lie inside it.");
            words.append(&mut number);
            words.append(&mut rest);
            return Err(string_from_chars(words.as_slice()));
        }
    }
    if let Some(e) = last {
        if e <= from {
            return Err(String::from_str("A range ends after it starts."));
        }
    }
    let mut words = decimal_chars(from);
    words.push('-');
    proof {
        reveal_strlit("-");
    }
    if let Some(e) = last {
        let mut number = decimal_chars(e);
        words.append(&mut number);
        assert(words@ =~= decimal(from as nat) + "-"@ + decimal(e as nat));
    } else {
        assert(words@ =~= decimal(from as nat) + "-"@ + Seq::<char>::empty());
    }
    Ok(Some(string_from_chars(words.as_slice())))
}

/// What a URL parser makes of a text, as a web browser parses an address: its scheme, whether
/// it has a host, and the address written out again; or nothing, when the text is no absolute
/// URL.
pub uninterp spec fn url_parts(text: Seq<char>) -> Option<(Seq<char>, bool, Seq<char>)>;

/// What the URL parser hands back, as plain values.
pub struct UrlParts {
    pub scheme: String,
    pub has_host: bool,
    pub href: String,
}

/// `reqwest::Url::parse` (the `url` crate's `Url::parse`), then the URL's `scheme()`, whether
/// `host()` is some, and `as_str()`. Claimed: the result is the parser's, a function of the
/// text alone, named `url_parts`; what that function is takes the URL standard to say.
#[verifier::external_body]
fn parse_url(text: &str) -> (r: Option<UrlParts>)
    ensures
        match r {
            Some(p) => url_parts(text@) == Some((p.scheme@, p.has_host, p.href@)),
            None => url_parts(text@) is None,
        },
{
    reqwest::Url::parse(text).ok().map(
        |url| UrlParts {
            scheme: url.scheme().to_owned(),
            has_host: url.host().is_some(),
            href: url.as_str().to_owned(),
        },
    )
}

/// A parse as plain values: the scheme, whether there is a host, and the address written out.
pub open spec fn parts_view(parsed: Option<UrlParts>) -> Option<(Seq<char>, bool, Seq<char>)> {
    match parsed {
        Some(p) => Some((p.scheme@, p.has_host, p.href@)),
        None => None,
    }
}

/// A text that may not be there, as its characters.
pub open spec fn text_view(text: Option<String>) -> Option<Seq<char>> {
    match text {
        Some(t) => Some(t@),
        None => None,
    }
}

/// The address a parse gives when it is http or https with a host.
pub open spec fn web_address(parsed: Option<(Seq<char>, bool, Seq<char>)>) -> Option<Seq<char>> {
    match parsed {
        Some((scheme, host, href)) => if (scheme == "http"@ || scheme == "https"@) && host {
            Some(href)
        } else {
            None
        },
        None => None,
    }
}

/// The address a parse gives when it has a host, whatever its scheme.
pub open spec fn hosted(parsed: Option<(Seq<char>, bool, Seq<char>)>) -> Option<Seq<char>> {
    match parsed {
        Some((_, host, href)) => if host {
            Some(href)
        } else {
            None
        },
        None => None,
    }
}

/// The text to try as https when it is no web address as it stands: the text after `https://`,
/// unless it has whitespace in it, or no dot, or a `://` already.
pub open spec fn retry_of(t: Seq<char>) -> Option<Seq<char>> {
    if any_white(t) || !t.contains('.') || has_infix(t, "://"@) {
        None
    } else {
        Some("https://"@ + t)
    }
}

/// Whatever was typed or pasted, as an address if it can be one: trimmed, and not empty nor
/// longer than `CLIPBOARD_LIMIT` bytes. With a scheme, it must be http or https and have a
/// host. Without one, `example.org/file.zip` is tried as https -- unless it has whitespace in
/// it, or no dot, or a `://` -- and kept if it then has a host.
pub open spec fn address_of(text: Seq<char>) -> Option<Seq<char>> {
    let t = trim(text);
    if t.len() == 0 || utf8_len(t) > CLIPBOARD_LIMIT {
        None
    } else if web_address(url_parts(t)) is Some {
        web_address(url_parts(t))
    } else {
        match retry_of(t) {
            Some(u) => hosted(url_parts(u)),
            None => None,
        }
    }
}

/// The address a parse gives, when it is http or https and has a host: the parser's own
/// writing of it.
pub fn web_address_of(parsed: Option<UrlParts>) -> (r: Option<String>)
    ensures
        text_view(r) == web_address(parts_view(parsed)),
{
    match parsed {
        Some(parts) => {
            let web = parts.scheme == String::from_str("http") || parts.scheme == String::from_str(
                "https",
            );
            proof {
                reveal_strlit("http");
                reveal_strlit("https");
            }
            if web && parts.has_host {
                Some(parts.href)
            } else {
                None
            }
        },
        None => None,
    }
}

/// The address a parse of the text tried as https gives, when it has a host.
pub fn hosted_address(parsed: Option<UrlParts>) -> (r: Option<String>)
    ensures
        text_view(r) == hosted(parts_view(parsed)),
{
    match parsed {
        Some(parts) => if parts.has_host {
            Some(parts.href)
        } else {
            None
        },
        None => None,
    }
}

/// The text to try as https, for a text that is no web address as it stands; None when it is
/// not to be tried.
pub fn retry_with_https(t: &str) -> (r: Option<String>)
    ensures
        text_view(r) == retry_of(t@),
{
    let chars = chars_of(t);
    let slashes = chars_of("://");
    if contains_whitespace(chars.as_slice()) || !contains_char(chars.as_slice(), '.')
        || contains_text(chars.as_slice(), slashes.as_slice()) {
        proof {
            reveal_strlit("://");
        }
        return None;
    }
    proof {
        reveal_strlit("://");
    }
    let mut schemed = chars_of("https://");
    let mut rest = chars;
    schemed.append(&mut rest);
    Some(string_from_chars(schemed.as_slice()))
}

/// Whatever was typed or pasted, as an address if it can be one, written out as the URL
/// parser writes it.
pub fn parse_address(text: &str) -> (r: Option<String>)
    ensures
        text_view(r) == address_of(text@),
{
    let t = trimmed(text);
    if t.len() == 0 || longer_than(t.as_slice(), CLIPBOARD_LIMIT) {
        return None;
    }
    let shown = string_from_chars(t.as_slice());
    if let Some(address) = web_address_of(parse_url(shown.as_str())) {
        return Some(address);
    }
    match retry_with_https(shown.as_str()) {
        Some(u) => hosted_address(parse_url(u.as_str())),
        None => None,
    }
}

/// How many digits past the first a number has in decimal: the power of ten at or below it.
pub open spec fn ilog10(n: nat) -> nat
    decreases n,
{
    if n < 10 {
        0
    } else {
        1 + ilog10(n / 10)
    }
}

/// The step a part of a file is rounded to at a drag's level: a tenth, a hundredth and a
/// thousandth of the file -- at least a byte -- put on the largest of 5, 2 or 1 times the
/// power of ten at or below it that does not pass it. None at exact.
pub open spec fn range_step_of(size: nat, level: nat) -> Option<nat> {
    if level >= 3 {
        None
    } else {
        let share = size / ten_to(level + 1);
        let rough: nat = if share >= 1 {
            share
        } else {
            1
        };
        let decade = ten_to(ilog10(rough));
        Some(
            if 5 * decade <= rough {
                5 * decade
            } else if 2 * decade <= rough {
                2 * decade
            } else {
                decade
            },
        )
    }
}

/// The step a part of a file is rounded to at a drag's level, so the bytes in the field are a
/// round number at every level. None at exact.
pub fn range_step(size: u64, level: usize) -> (r: Option<u64>)
    ensures
        match r {
            Some(n) => range_step_of(size as nat, level as nat) == Some(n as nat),
            None => range_step_of(size as nat, level as nat) is None,
        },
{
    proof {
        reveal_with_fuel(ten_to, 4);
    }
    let share: u64 = if level == 0 {
        10
    } else if level == 1 {
        100
    } else if level == 2 {
        1000
    } else {
        return None;
    };
    let rough = if size / share >= 1 {
        size / share
    } else {
        1
    };
    assert(rough <= u64::MAX / 10) by (nonlinear_arith)
        requires
            share >= 10,
            rough == size / share || rough == 1,
    ;
    let mut rest = rough;
    let mut decade: u64 = 1;
    let ghost mut k: nat = 0;
    while rest >= 10
        invariant
            1 <= rest <= rough,
            decade == ten_to(k),
            decade * rest <= rough,
            decade >= 1,
            ilog10(rough as nat) == k + ilog10(rest as nat),
        decreases rest,
    {
        assert(decade * 10 <= decade * rest) by (nonlinear_arith)
            requires
                rest >= 10,
                decade >= 1,
        ;
        assert((decade * 10) * (rest / 10) <= decade * rest) by (nonlinear_arith)
            requires
                rest >= 10,
                decade >= 1,
        ;
        decade = decade * 10;
        rest = rest / 10;
        proof {
            k = k + 1;
        }
    }
    assert(decade <= rough) by (nonlinear_arith)
        requires
            decade * rest <= rough,
            rest >= 1,
    ;
    if 5 * decade <= rough {
        Some(5 * decade)
    } else if 2 * decade <= rough {
        Some(2 * decade)
    } else {
        Some(decade)
    }
}

/// Bytes on the nearest step -- half a step rounds up -- held to the file, with the end of the
/// file a place of its own rather than the step before it: within half a step of it is it.
pub open spec fn rounded_bytes(bytes: nat, size: nat, step: nat) -> nat {
    let near = (bytes + step / 2) / step * step;
    if size < near + step / 2 {
        size
    } else if near <= size {
        near
    } else {
        size
    }
}

/// Bytes on the nearest step, with the end of the file a place of its own rather than the step
/// before it. The step is never zero, and bytes half a step on still fit a `u64`.
pub fn round_bytes(bytes: u64, size: u64, step: u64) -> (r: u64)
    requires
        step > 0,
        bytes + step / 2 <= u64::MAX,
    ensures
        r == rounded_bytes(bytes as nat, size as nat, step as nat),
{
    let half = step / 2;
    let up = bytes + half;
    assert(up / step * step <= up) by (nonlinear_arith)
        requires
            step > 0,
    ;
    let near = up / step * step;
    let gap = if size > near {
        size - near
    } else {
        0
    };
    if gap < half {
        size
    } else if near <= size {
        near
    } else {
        size
    }
}

/// Decimal digits are no whitespace and no separator: a number written in decimal is its own
/// trimmed, separator-free text.
proof fn lemma_decimal_is_bare(n: nat)
    ensures
        trim(decimal(n)) == decimal(n),
        without_separators(decimal(n)) == decimal(n),
{
    lemma_decimal_reads_back(n);
    let d = decimal(n);
    assert(!is_white(d[0]));
    assert(trim_start(d) == d);
    assert(!is_white(d.last()));
    assert(trim_end(d) == d);
    lemma_digits_keep_all(d);
}

proof fn lemma_digits_keep_all(d: Seq<char>)
    requires
        all_digits(d),
    ensures
        without_separators(d) == d,
    decreases d.len(),
{
    if d.len() > 0 {
        assert(all_digits(d.drop_last())) by {
            assert forall|i: int| 0 <= i < d.drop_last().len() implies crate::text::is_digit(
                #[trigger] d.drop_last()[i],
            ) by {
                assert(d.drop_last()[i] == d[i]);
            }
        }
        lemma_digits_keep_all(d.drop_last());
        assert(crate::text::is_digit(d[d.len() - 1]));
        assert(d.drop_last().push(d.last()) =~= d);
    }
}

/// A range field holding a number written in decimal reads as that number.
pub proof fn law_a_written_number_reads_back(n: u64)
    ensures
        range_number(decimal(n as nat)) == Ok::<Option<nat>, ()>(Some(n as nat)),
{
    lemma_decimal_is_bare(n as nat);
    lemma_decimal_reads_back(n as nat);
    let d = decimal(n as nat);
    assert(d[0] != '+');
}

/// The range a file fills in as it is found -- from `0` to its size, the size written in
/// decimal -- is read back as no range at all: the whole file, whatever its size.
pub proof fn law_the_prefilled_range_is_the_whole_file(size: u64)
    ensures
        part_spec("0"@, decimal(size as nat), Some(size)) == Ok::<Option<Seq<char>>, Seq<char>>(
            None,
        ),
{
    law_a_written_number_reads_back(0);
    law_a_written_number_reads_back(size);
    reveal_with_fuel(decimal, 2);
    assert(decimal(0) =~= "0"@) by {
        reveal_strlit("0");
    }
}


/// A connections field holds one to the most connections: a number written there from one to
/// `MAX_CONNECTIONS` is that count, and none is counted from nought or past the most.
pub proof fn law_a_count_is_one_to_the_most(n: nat)
    requires
        n <= u32::MAX,
    ensures
        1 <= n <= 32 ==> count_of(decimal(n)) == Some(n as u16),
        (n == 0 || n > 32) ==> count_of(decimal(n)) is None,
{
    lemma_decimal_is_bare(n);
    lemma_decimal_reads_back(n);
    let d = decimal(n);
    assert(d[0] != '+');
}

} // verus!
