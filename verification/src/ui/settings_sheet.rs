//! Settings: how a choice is drawn -- side by side as segments while its words fit, and as a
//! dropdown after that -- what a field's text is read as, and how the headers kept are shown.

pub mod names;
pub mod rows;
pub mod sheet;
pub mod values;

use vstd::prelude::*;
use crate::text::{
    begins_with, chars_between, chars_of, find_from, find_text, is_white, lemma_split_nonempty,
    lemma_trim_ends, occurs_at, split_char, split_pieces, starts_with_chars, string_from_chars,
    trim, trim_bounds, trim_end, trim_start, trimmed,
};

verus! {

/// The ranges a font draws at two columns: the CJK blocks, the kana, Hangul and the full-width
/// forms.
pub open spec fn is_wide(c: char) -> bool {
    let u = c as u32;
    (0x1100 <= u <= 0x115F) || (0x2E80 <= u <= 0xA4CF) || (0xAC00 <= u <= 0xD7A3) || (0xF900 <= u
        <= 0xFAFF) || (0xFE30 <= u <= 0xFE6F) || (0xFF00 <= u <= 0xFF60) || (0xFFE0 <= u <= 0xFFE6)
        || (0x20000 <= u <= 0x3FFFD)
}

/// Whether a character draws in two columns.
pub fn wide(c: char) -> (r: bool)
    ensures
        r == is_wide(c),
{
    let u = c as u32;
    (0x1100 <= u && u <= 0x115F) || (0x2E80 <= u && u <= 0xA4CF) || (0xAC00 <= u && u <= 0xD7A3)
        || (0xF900 <= u && u <= 0xFAFF) || (0xFE30 <= u && u <= 0xFE6F) || (0xFF00 <= u && u
        <= 0xFF60) || (0xFFE0 <= u && u <= 0xFFE6) || (0x20000 <= u && u <= 0x3FFFD)
}

/// How many columns a text draws in: two for a wide character, one for any other.
pub open spec fn columns(s: Seq<char>) -> nat
    decreases s.len(),
{
    if s.len() == 0 {
        0
    } else {
        columns(s.drop_last()) + if is_wide(s.last()) {
            2nat
        } else {
            1nat
        }
    }
}

/// How many columns a set of options draws in, all together.
pub open spec fn total_columns(options: Seq<Seq<char>>) -> nat
    decreases options.len(),
{
    if options.len() == 0 {
        0
    } else {
        total_columns(options.drop_last()) + columns(options.last())
    }
}

/// The most columns a set of segments may take.
pub const SEGMENT_COLUMNS: usize = 52;

/// The most options drawn as segments.
pub const SEGMENT_OPTIONS: usize = 4;

/// Whether a set of options is drawn as segments: four or fewer, taking 52 columns or fewer.
pub open spec fn fit(options: Seq<Seq<char>>) -> bool {
    options.len() <= SEGMENT_OPTIONS && total_columns(options) <= SEGMENT_COLUMNS
}

proof fn lemma_columns_prefix(s: Seq<char>, k: int)
    requires
        0 <= k <= s.len(),
    ensures
        columns(s.take(k)) <= columns(s),
    decreases s.len() - k,
{
    if k < s.len() {
        lemma_columns_prefix(s, k + 1);
        assert(s.take(k + 1).drop_last() =~= s.take(k));
    } else {
        assert(s.take(k) =~= s);
    }
}

proof fn lemma_total_prefix(o: Seq<Seq<char>>, k: int)
    requires
        0 <= k <= o.len(),
    ensures
        total_columns(o.take(k)) <= total_columns(o),
    decreases o.len() - k,
{
    if k < o.len() {
        lemma_total_prefix(o, k + 1);
        assert(o.take(k + 1).drop_last() =~= o.take(k));
    } else {
        assert(o.take(k) =~= o);
    }
}

/// The columns of one text, or None once they pass `cap`.
fn columns_up_to(s: &[char], cap: usize) -> (r: Option<usize>)
    ensures
        match r {
            Some(n) => n == columns(s@) && n <= cap,
            None => columns(s@) > cap,
        },
{
    let mut n: usize = 0;
    let mut k: usize = 0;
    assert(s@.take(0) =~= Seq::<char>::empty());
    while k < s.len()
        invariant
            k <= s@.len(),
            n == columns(s@.take(k as int)),
            n <= cap,
        decreases s.len() - k,
    {
        assert(s@.take(k + 1).drop_last() =~= s@.take(k as int));
        let w: usize = if wide(s[k]) { 2 } else { 1 };
        if w > cap - n {
            proof {
                lemma_columns_prefix(s@, k + 1);
            }
            return None;
        }
        n = n + w;
        k = k + 1;
    }
    assert(s@.take(s@.len() as int) =~= s@);
    Some(n)
}

/// Whether a choice's options can be drawn side by side as a segmented control, or want a
/// dropdown instead. What decides is how much room the words ask for, measured in the columns
/// they draw in rather than in characters: a CJK glyph is twice the width of a Latin one. Five
/// options are a dropdown whatever they say, a row of five being a list.
pub fn segments_fit(options: &[&str]) -> (r: bool)
    ensures
        r == fit(options@.map_values(|o: &str| o@)),
{
    let ghost words = options@.map_values(|o: &str| o@);
    if options.len() > SEGMENT_OPTIONS {
        return false;
    }
    let mut used: usize = 0;
    let mut i: usize = 0;
    assert(words.take(0) =~= Seq::<Seq<char>>::empty());
    while i < options.len()
        invariant
            i <= options@.len() <= SEGMENT_OPTIONS,
            words == options@.map_values(|o: &str| o@),
            used == total_columns(words.take(i as int)),
            used <= SEGMENT_COLUMNS,
        decreases options.len() - i,
    {
        assert(words.take(i + 1).drop_last() =~= words.take(i as int));
        let chars = chars_of(options[i]);
        match columns_up_to(chars.as_slice(), SEGMENT_COLUMNS - used) {
            Some(n) => {
                used = used + n;
            },
            None => {
                proof {
                    lemma_total_prefix(words, i + 1);
                }
                return false;
            },
        }
        i = i + 1;
    }
    assert(words.take(options@.len() as int) =~= words);
    true
}

/// Another option never turns a dropdown into segments: what does not fit as segments still
/// does not with one more word.
pub proof fn law_another_option_never_fits_better(options: Seq<Seq<char>>, extra: Seq<char>)
    requires
        fit(options.push(extra)),
    ensures
        fit(options),
{
    assert(options.push(extra).drop_last() =~= options);
}

/// The options at these places, in order.
pub open spec fn options_at(options: Seq<Seq<char>>, places: Seq<int>) -> Seq<Seq<char>> {
    places.map_values(|i: int| options[i])
}

/// Places within `n`, each after the one before it: some of the options, none taken twice.
pub open spec fn ascending_within(places: Seq<int>, n: int) -> bool {
    &&& forall|i: int| 0 <= i < places.len() ==> 0 <= #[trigger] places[i] < n
    &&& forall|i: int, j: int| 0 <= i < j < places.len() ==> places[i] < places[j]
}

proof fn lemma_fewer_options_fewer_columns(options: Seq<Seq<char>>, places: Seq<int>)
    requires
        ascending_within(places, options.len() as int),
    ensures
        places.len() <= options.len(),
        total_columns(options_at(options, places)) <= total_columns(options),
    decreases options.len(),
{
    let picked = options_at(options, places);
    if options.len() == 0 {
        assert(places.len() == 0) by {
            if places.len() > 0 {
                let first = places[0];
                assert(0 <= first < options.len());
            }
        }
        assert(picked =~= Seq::<Seq<char>>::empty());
    } else {
        let n = options.len() as int;
        let rest = options.drop_last();
        if places.len() > 0 && places.last() == n - 1 {
            let before = places.drop_last();
            assert forall|i: int| 0 <= i < before.len() implies 0 <= #[trigger] before[i] < n - 1 by {
                assert(places[i] < places[places.len() - 1]);
            }
            lemma_fewer_options_fewer_columns(rest, before);
            assert(options_at(rest, before) =~= picked.drop_last());
            assert(picked.last() == options.last());
        } else {
            assert forall|i: int| 0 <= i < places.len() implies 0 <= #[trigger] places[i] < n - 1 by {
                if places[i] == n - 1 {
                    if i < places.len() - 1 {
                        assert(places[i] < places[places.len() - 1]);
                    }
                }
            }
            lemma_fewer_options_fewer_columns(rest, places);
            assert(options_at(rest, places) =~= picked);
        }
    }
}

/// What fits as segments still fits with some of its options left out: fewer options, and
/// no more columns.
pub proof fn law_fewer_options_still_fit(options: Seq<Seq<char>>, places: Seq<int>)
    requires
        fit(options),
        ascending_within(places, options.len() as int),
    ensures
        fit(options_at(options, places)),
{
    lemma_fewer_options_fewer_columns(options, places);
}

/// The headers a Settings field holds: `Name: value` pairs between semicolons, each name and
/// value trimmed, empty pieces skipped; None when a piece has no colon.
pub open spec fn headers_of(pieces: Seq<Seq<char>>) -> Option<Seq<(Seq<char>, Seq<char>)>>
    decreases pieces.len(),
{
    if pieces.len() == 0 {
        Some(Seq::empty())
    } else {
        match headers_of(pieces.drop_last()) {
            None => None,
            Some(headers) => {
                let piece = trim(pieces.last());
                if piece.len() == 0 {
                    Some(headers)
                } else {
                    match find_from(piece, ":"@, 0) {
                        None => None,
                        Some(i) => Some(headers.push((trim(piece.take(i)), trim(piece.skip(i + 1))))),
                    }
                }
            },
        }
    }
}

/// Why a headers field was refused.
pub open spec fn not_a_header() -> Seq<char> {
    "A header is Name: value."@
}

/// The headers field read: `Name: value` pairs between semicolons.
pub fn parse_headers(text: &str) -> (r: Result<Vec<(String, String)>, String>)
    ensures
        match r {
            Ok(v) => headers_of(split_char(trim(text@), ';')) == Some(
                v@.map_values(|h: (String, String)| (h.0@, h.1@)),
            ),
            Err(e) => headers_of(split_char(trim(text@), ';')) is None && e@ == not_a_header(),
        },
{
    let t = trimmed(text);
    let pieces = split_pieces(t.as_slice(), ';');
    let ghost seen = pieces@.map_values(|x: Vec<char>| x@);
    let colon = chars_of(":");
    proof {
        reveal_strlit(":");
    }
    let mut headers: Vec<(String, String)> = Vec::new();
    let mut i: usize = 0;
    assert(seen.take(0) =~= Seq::<Seq<char>>::empty());
    while i < pieces.len()
        invariant
            i <= pieces@.len(),
            seen == pieces@.map_values(|x: Vec<char>| x@),
            seen == split_char(trim(text@), ';'),
            colon@ == ":"@,
            colon@.len() == 1,
            headers_of(seen.take(i as int)) == Some(
                headers@.map_values(|h: (String, String)| (h.0@, h.1@)),
            ),
        decreases pieces.len() - i,
    {
        assert(seen.take(i + 1).drop_last() =~= seen.take(i as int));
        assert(seen.take(i + 1).last() == pieces@[i as int]@);
        let (a, b) = trim_bounds(pieces[i].as_slice());
        let piece = chars_between(pieces[i].as_slice(), a, b);
        if piece.len() > 0 {
            match find_text(piece.as_slice(), colon.as_slice()) {
                None => {
                    proof {
                        lemma_headers_stay_refused(seen, i + 1);
                    }
                    assert(seen.take(seen.len() as int) =~= seen);
                    return Err(String::from_str("A header is Name: value."));
                },
                Some(k) => {
                    let head = chars_between(piece.as_slice(), 0, k);
                    let (na, nb) = trim_bounds(head.as_slice());
                    let name = chars_between(head.as_slice(), na, nb);
                    let n = piece.len();
                    assert(k + 1 <= n);
                    let rest = chars_between(piece.as_slice(), k + 1, n);
                    let (va, vb) = trim_bounds(rest.as_slice());
                    let value = chars_between(rest.as_slice(), va, vb);
                    let ghost before = headers@.map_values(|h: (String, String)| (h.0@, h.1@));
                    proof {
                        assert(piece@.take(k as int) =~= piece@.subrange(0, k as int));
                        assert(rest@ =~= piece@.skip(k + 1));
                    }
                    headers.push((string_from_chars(name.as_slice()), string_from_chars(value.as_slice())));
                    assert(headers@.map_values(|h: (String, String)| (h.0@, h.1@)) =~= before.push(
                        (trim(piece@.take(k as int)), trim(piece@.skip(k + 1))),
                    ));
                },
            }
        }
        i = i + 1;
    }
    assert(seen.take(pieces@.len() as int) =~= seen);
    Ok(headers)
}

/// A refusal stays a refusal with more pieces after it.
proof fn lemma_headers_stay_refused(pieces: Seq<Seq<char>>, k: int)
    requires
        0 <= k <= pieces.len(),
        headers_of(pieces.take(k)) is None,
    ensures
        headers_of(pieces) is None,
    decreases pieces.len() - k,
{
    if k < pieces.len() {
        assert(pieces.take(k + 1).drop_last() =~= pieces.take(k));
        lemma_headers_stay_refused(pieces, k + 1);
    } else {
        assert(pieces.take(k) =~= pieces);
    }
}

/// The schemes a proxy may have.
pub open spec fn proxy_schemed(t: Seq<char>) -> bool {
    begins_with(t, "http://"@) || begins_with(t, "https://"@) || begins_with(t, "socks5://"@)
        || begins_with(t, "socks5h://"@)
}

/// The proxy field read: nothing when empty; otherwise the trimmed text, which has to start
/// with `http://`, `https://`, `socks5://` or `socks5h://` -- the last taken as well as the one
/// before it and meaning the same here.
pub fn proxy_setting(text: &str) -> (r: Result<Option<String>, String>)
    ensures
        match r {
            Ok(Some(p)) => trim(text@).len() > 0 && proxy_schemed(trim(text@)) && p@ == trim(text@),
            Ok(None) => trim(text@).len() == 0,
            Err(e) => trim(text@).len() > 0 && !proxy_schemed(trim(text@))
                && e@ == "A proxy starts with http://, https:// or socks5://."@,
        },
{
    let t = trimmed(text);
    if t.len() == 0 {
        return Ok(None);
    }
    let (a, b, c, d) = (chars_of("http://"), chars_of("https://"), chars_of("socks5://"), chars_of("socks5h://"));
    let schemed = starts_with_chars(t.as_slice(), a.as_slice()) || starts_with_chars(t.as_slice(), b.as_slice())
        || starts_with_chars(t.as_slice(), c.as_slice()) || starts_with_chars(t.as_slice(), d.as_slice());
    if !schemed {
        return Err(String::from_str("A proxy starts with http://, https:// or socks5://."));
    }
    Ok(Some(string_from_chars(t.as_slice())))
}

/// How many downloads run at once, from what the field read: three when it was left empty,
/// and one to sixty-four.
pub fn concurrent_downloads(read: Option<u64>) -> (r: usize)
    ensures
        r == match read {
            None => 3,
            Some(n) => if n < 1 {
                1
            } else if n > 64 {
                64
            } else {
                n
            },
        },
{
    let n = match read {
        Some(n) => n,
        None => 3,
    };
    if n < 1 {
        1
    } else if n > 64 {
        64
    } else {
        n as usize
    }
}

/// The limit slider's ends after one of them is set from what its field read: a whole number
/// of MB/s from one to a hundred thousand, or nothing for the default -- one at the low end, a
/// hundred at the high -- and the low end below the high.
pub fn slider_ends(
    setting_from: bool,
    read: Option<u64>,
    from: Option<u32>,
    to: Option<u32>,
) -> (r: Result<(Option<u32>, Option<u32>), String>)
    ensures
        match read {
            Some(n) if !(1 <= n <= 100_000) => r matches Err(e) && e@
                == "The slider is counted in whole MB/s, from 1."@,
            _ => {
                let value: Option<u32> = match read {
                    Some(n) => Some(n as u32),
                    None => None,
                };
                let (f, t) = if setting_from {
                    (value, to)
                } else {
                    (from, value)
                };
                let low: u32 = match f {
                    Some(x) => x,
                    None => 1,
                };
                let high: u32 = match t {
                    Some(x) => x,
                    None => 100,
                };
                if low >= high {
                    r matches Err(e) && e@ == "The slider has to start below where it ends."@
                } else {
                    r == Ok::<(Option<u32>, Option<u32>), String>((f, t))
                }
            },
        },
{
    let value: Option<u32> = match read {
        None => None,
        Some(n) => {
            if 1 <= n && n <= 100_000 {
                Some(n as u32)
            } else {
                return Err(String::from_str("The slider is counted in whole MB/s, from 1."));
            }
        },
    };
    let (f, t) = if setting_from {
        (value, to)
    } else {
        (from, value)
    };
    let low = match f {
        Some(x) => x,
        None => 1,
    };
    let high = match t {
        Some(x) => x,
        None => 100,
    };
    if low >= high {
        return Err(String::from_str("The slider has to start below where it ends."));
    }
    Ok((f, t))
}


/// A header as the headers field shows it: `Name: value`.
pub open spec fn header_line(h: (Seq<char>, Seq<char>)) -> Seq<char> {
    h.0 + seq![':', ' '] + h.1
}

/// The headers field's text for the headers kept: each as `Name: value`, with `; ` between.
pub open spec fn shown_headers(hs: Seq<(Seq<char>, Seq<char>)>) -> Seq<char>
    decreases hs.len(),
{
    if hs.len() == 0 {
        Seq::empty()
    } else if hs.len() == 1 {
        header_line(hs[0])
    } else {
        shown_headers(hs.drop_last()) + seq![';', ' '] + header_line(hs.last())
    }
}

/// A header that the field gives back as it was: its name and value trimmed, no colon in the
/// name, and no semicolon in either.
pub open spec fn reads_back(h: (Seq<char>, Seq<char>)) -> bool {
    &&& trim(h.0) == h.0
    &&& trim(h.1) == h.1
    &&& !h.0.contains(':')
    &&& !h.0.contains(';')
    &&& !h.1.contains(';')
}

/// The headers kept, as the headers field shows them.
pub fn headers_text(headers: &[(String, String)]) -> (s: String)
    ensures
        s@ == shown_headers(headers@.map_values(|h: (String, String)| (h.0@, h.1@))),
{
    let ghost all = headers@.map_values(|h: (String, String)| (h.0@, h.1@));
    let mut v: Vec<char> = Vec::new();
    let mut i: usize = 0;
    assert(all.take(0) =~= Seq::<(Seq<char>, Seq<char>)>::empty());
    while i < headers.len()
        invariant
            i <= headers@.len(),
            all == headers@.map_values(|h: (String, String)| (h.0@, h.1@)),
            v@ == shown_headers(all.take(i as int)),
        decreases headers.len() - i,
    {
        let ghost before = v@;
        if i > 0 {
            v.push(';');
            v.push(' ');
        }
        let mut name = chars_of(headers[i].0.as_str());
        v.append(&mut name);
        v.push(':');
        v.push(' ');
        let mut value = chars_of(headers[i].1.as_str());
        v.append(&mut value);
        proof {
            let next = all.take(i + 1);
            assert(next.drop_last() =~= all.take(i as int));
            assert(next.last() == all[i as int]);
            if i > 0 {
                assert(v@ =~= before + seq![';', ' '] + header_line(all[i as int]));
            } else {
                assert(v@ =~= header_line(all[i as int]));
            }
        }
        i = i + 1;
    }
    assert(all.take(headers@.len() as int) =~= all);
    string_from_chars(v.as_slice())
}

/// Splitting at a semicolon splits the pieces on either side of it.
proof fn lemma_split_join(a: Seq<char>, b: Seq<char>)
    ensures
        split_char(a + seq![';'] + b, ';') == split_char(a, ';') + split_char(b, ';'),
    decreases b.len(),
{
    let s = a + seq![';'] + b;
    lemma_split_nonempty(a, ';');
    if b.len() == 0 {
        assert(s.drop_last() =~= a);
        assert(s.last() == ';');
        assert(split_char(s, ';') =~= split_char(a, ';') + split_char(b, ';'));
    } else {
        lemma_split_join(a, b.drop_last());
        lemma_split_nonempty(b.drop_last(), ';');
        assert(s.drop_last() =~= a + seq![';'] + b.drop_last());
        assert(s.last() == b.last());
        assert(split_char(s, ';') =~= split_char(a, ';') + split_char(b, ';'));
    }
}

/// A text with no semicolon is one piece.
proof fn lemma_split_whole(s: Seq<char>)
    requires
        !s.contains(';'),
    ensures
        split_char(s, ';') == seq![s],
    decreases s.len(),
{
    if s.len() > 0 {
        assert(!s.drop_last().contains(';')) by {
            if s.drop_last().contains(';') {
                let j = choose|j: int| 0 <= j < s.drop_last().len() && s.drop_last()[j] == ';';
                assert(s[j] == ';');
            }
        }
        lemma_split_whole(s.drop_last());
        assert(s[s.len() - 1] != ';');
        assert(s.drop_last().push(s.last()) =~= s);
        assert(seq![s.drop_last()].update(0, s.drop_last().push(s.last())) =~= seq![s]);
    } else {
        assert(s =~= Seq::<char>::empty());
    }
}

/// Dropping a last character that is not a separator drops it from the last piece.
proof fn lemma_split_cut(s: Seq<char>)
    requires
        s.len() > 0,
        s.last() != ';',
    ensures
        split_char(s.drop_last(), ';') == split_char(s, ';').update(
            split_char(s, ';').len() - 1,
            split_char(s, ';').last().drop_last(),
        ),
{
    let p = split_char(s.drop_last(), ';');
    lemma_split_nonempty(s.drop_last(), ';');
    assert(p.last().push(s.last()).drop_last() =~= p.last());
    assert(p.update(p.len() - 1, p.last().push(s.last())).update(p.len() - 1, p.last()) =~= p);
}

proof fn lemma_line_has_no_semicolon(h: (Seq<char>, Seq<char>), lead: bool)
    requires
        reads_back(h),
    ensures
        !(if lead {
            seq![' '] + header_line(h)
        } else {
            header_line(h)
        }).contains(';'),
{
    let line = header_line(h);
    let q = if lead {
        seq![' '] + line
    } else {
        line
    };
    assert forall|j: int| 0 <= j < line.len() implies line[j] != ';' by {
        if j < h.0.len() {
            assert(line[j] == h.0[j]);
        } else if j >= h.0.len() + 2 {
            assert(line[j] == h.1[j - h.0.len() - 2]);
        }
    }
    assert forall|j: int| 0 <= j < q.len() implies q[j] != ';' by {
        if lead && j > 0 {
            assert(q[j] == line[j - 1]);
        }
    }
}

/// The pieces the headers field's text splits into: the first line as it is, the others after
/// the space that follows each semicolon.
pub open spec fn shown_pieces(hs: Seq<(Seq<char>, Seq<char>)>) -> Seq<Seq<char>> {
    Seq::new(
        hs.len(),
        |i: int|
            if i == 0 {
                header_line(hs[0])
            } else {
                seq![' '] + header_line(hs[i])
            },
    )
}

proof fn lemma_shown_split(hs: Seq<(Seq<char>, Seq<char>)>)
    requires
        hs.len() >= 1,
        forall|i: int| 0 <= i < hs.len() ==> reads_back(#[trigger] hs[i]),
    ensures
        split_char(shown_headers(hs), ';') == shown_pieces(hs),
        shown_headers(hs).len() > 0,
        shown_headers(hs)[0] == header_line(hs[0])[0],
    decreases hs.len(),
{
    if hs.len() == 1 {
        lemma_line_has_no_semicolon(hs[0], false);
        lemma_split_whole(header_line(hs[0]));
        assert(shown_pieces(hs) =~= seq![header_line(hs[0])]);
    } else {
        let rest = hs.drop_last();
        assert forall|i: int| 0 <= i < rest.len() implies reads_back(#[trigger] rest[i]) by {
            assert(rest[i] == hs[i]);
        }
        lemma_shown_split(rest);
        let line = seq![' '] + header_line(hs.last());
        lemma_line_has_no_semicolon(hs.last(), true);
        lemma_split_whole(line);
        assert(shown_headers(hs) =~= shown_headers(rest) + seq![';'] + line);
        lemma_split_join(shown_headers(rest), line);
        assert(shown_pieces(hs) =~= shown_pieces(rest) + seq![line]);
    }
}

/// How a piece of the headers field reads: trimmed, a name before its first colon and a value
/// after it, each trimmed.
pub open spec fn piece_reads(piece: Seq<char>, h: (Seq<char>, Seq<char>)) -> bool {
    let p = trim(piece);
    p.len() > 0 && match find_from(p, ":"@, 0) {
        Some(i) => trim(p.take(i)) == h.0 && trim(p.skip(i + 1)) == h.1,
        None => false,
    }
}

proof fn lemma_find_colon(t: Seq<char>, k: int, j: int)
    requires
        0 <= j <= k < t.len(),
        t[k] == ':',
        forall|m: int| 0 <= m < k ==> t[m] != ':',
    ensures
        find_from(t, ":"@, j) == Some(k),
    decreases k - j,
{
    reveal_strlit(":");
    if j < k {
        assert(t.subrange(j, j + 1)[0] == t[j]);
        assert(!occurs_at(t, ":"@, j));
        lemma_find_colon(t, k, j + 1);
    } else {
        assert(t.subrange(k, k + 1) =~= ":"@);
    }
}

proof fn lemma_trim_leading_space(s: Seq<char>)
    ensures
        trim_start(seq![' '] + s) == trim_start(s),
{
    assert((seq![' '] + s).drop_first() =~= s);
}

/// One piece of the shown text reads as its header, after the space that may lead it, and
/// without the space that ends it where the value is empty and the whole text was trimmed.
proof fn lemma_piece_reads(h: (Seq<char>, Seq<char>), lead: bool, cut: bool)
    requires
        reads_back(h),
        cut ==> h.1.len() == 0,
    ensures
        piece_reads(
            {
                let led = if lead {
                    seq![' '] + header_line(h)
                } else {
                    header_line(h)
                };
                if cut {
                    led.drop_last()
                } else {
                    led
                }
            },
            h,
        ),
{
    let body = header_line(h);
    let led = if lead {
        seq![' '] + body
    } else {
        body
    };
    let q = if cut {
        led.drop_last()
    } else {
        led
    };
    let k = h.0.len() as int;
    let core = if h.1.len() == 0 {
        h.0 + seq![':']
    } else {
        body
    };
    lemma_trim_ends(h.0);
    lemma_trim_ends(h.1);
    // The name's first character, or the colon, opens what is left after the lead.
    let inner = if cut {
        body.drop_last()
    } else {
        body
    };
    assert(inner.len() > 0 && !is_white(inner[0])) by {
        if k > 0 {
            assert(inner[0] == h.0[0]);
        } else {
            assert(inner[0] == ':');
        }
    }
    assert(trim_start(inner) == inner);
    if lead {
        if cut {
            assert(q =~= seq![' '] + inner);
        }
        lemma_trim_leading_space(inner);
    }
    assert(trim_start(q) == inner);
    if h.1.len() == 0 {
        assert(body.drop_last() =~= core);
        assert(core.last() == ':');
        if !cut {
            assert(body.last() == ' ');
            assert(trim_end(body) == trim_end(body.drop_last()));
        }
    } else {
        assert(body.last() == h.1.last());
    }
    assert(trim(q) == core);
    assert forall|m: int| 0 <= m < k implies core[m] != ':' by {
        assert(core[m] == h.0[m]);
    }
    assert(core[k] == ':');
    lemma_find_colon(core, k, 0);
    assert(core.take(k) =~= h.0);
    if h.1.len() == 0 {
        assert(core.skip(k + 1) =~= h.1);
    } else {
        assert(core.skip(k + 1) =~= seq![' '] + h.1);
        lemma_trim_leading_space(h.1);
    }
}

proof fn lemma_pieces_read(pieces: Seq<Seq<char>>, hs: Seq<(Seq<char>, Seq<char>)>)
    requires
        pieces.len() == hs.len(),
        forall|i: int| 0 <= i < hs.len() ==> piece_reads(#[trigger] pieces[i], hs[i]),
    ensures
        headers_of(pieces) == Some(hs),
    decreases pieces.len(),
{
    if pieces.len() > 0 {
        let (p, h) = (pieces.drop_last(), hs.drop_last());
        assert forall|i: int| 0 <= i < h.len() implies piece_reads(#[trigger] p[i], h[i]) by {
            assert(p[i] == pieces[i]);
            assert(h[i] == hs[i]);
        }
        lemma_pieces_read(p, h);
        assert(piece_reads(pieces[pieces.len() - 1], hs[hs.len() - 1]));
        assert(h.push(hs.last()) =~= hs);
    } else {
        assert(hs =~= Seq::<(Seq<char>, Seq<char>)>::empty());
    }
}

/// What the headers field shows for the headers kept reads back as those headers, so Enter on
/// a field that was not changed keeps what was kept -- for headers whose names and values are
/// trimmed, whose names have no colon, and where neither has a semicolon.
pub proof fn law_shown_headers_read_back(hs: Seq<(Seq<char>, Seq<char>)>)
    requires
        forall|i: int| 0 <= i < hs.len() ==> reads_back(#[trigger] hs[i]),
    ensures
        headers_of(split_char(trim(shown_headers(hs)), ';')) == Some(hs),
{
    if hs.len() == 0 {
        let none = Seq::<char>::empty();
        assert(trim(shown_headers(hs)) == none);
        let pieces = split_char(none, ';');
        assert(pieces.drop_last() =~= Seq::<Seq<char>>::empty());
        assert(headers_of(pieces.drop_last()) == Some(Seq::<(Seq<char>, Seq<char>)>::empty()));
        assert(trim(pieces.last()) == none);
        assert(hs =~= Seq::<(Seq<char>, Seq<char>)>::empty());
    } else {
        let t = shown_headers(hs);
        let n = hs.len() as int;
        let last = hs.last();
        lemma_shown_split(hs);
        let head = if n == 1 {
            Seq::<char>::empty()
        } else {
            shown_headers(hs.drop_last()) + seq![';', ' ']
        };
        assert(t =~= head + header_line(last));
        lemma_trim_ends(hs[0].0);
        assert(!is_white(t[0])) by {
            if hs[0].0.len() > 0 {
                assert(header_line(hs[0])[0] == hs[0].0[0]);
            } else {
                assert(header_line(hs[0])[0] == ':');
            }
        }
        assert(trim_start(t) == t);
        assert forall|i: int| 0 <= i < n - 1 implies piece_reads(
            #[trigger] shown_pieces(hs)[i],
            hs[i],
        ) by {
            lemma_piece_reads(hs[i], i > 0, false);
        }
        if last.1.len() == 0 {
            assert(t.last() == ' ');
            assert(t.drop_last() =~= head + (last.0 + seq![':']));
            assert(t.drop_last().last() == ':');
            assert(trim_end(t.drop_last()) == t.drop_last());
            assert(trim_end(t) == trim_end(t.drop_last()));
            assert(trim(t) == t.drop_last());
            lemma_split_cut(t);
            let pieces = split_char(t.drop_last(), ';');
            lemma_piece_reads(last, n > 1, true);
            assert forall|i: int| 0 <= i < n implies piece_reads(#[trigger] pieces[i], hs[i]) by {
                if i < n - 1 {
                    assert(pieces[i] == shown_pieces(hs)[i]);
                }
            }
            lemma_pieces_read(pieces, hs);
        } else {
            lemma_trim_ends(last.1);
            assert(t.last() == last.1.last());
            assert(trim(t) == t);
            lemma_piece_reads(last, n > 1, false);
            assert forall|i: int| 0 <= i < n implies piece_reads(
                #[trigger] shown_pieces(hs)[i],
                hs[i],
            ) by {}
            lemma_pieces_read(shown_pieces(hs), hs);
        }
    }
}


/// Latin text draws a column a character, CJK two: no ASCII character is wide, and the Han
/// ideographs, the kana and the Hangul syllables all are.
pub proof fn law_ascii_is_narrow_and_cjk_wide(c: char)
    ensures
        (c as u32) < 0x80 ==> !is_wide(c),
        0x4E00 <= (c as u32) <= 0x9FFF ==> is_wide(c),
        0x3040 <= (c as u32) <= 0x30FF ==> is_wide(c),
        0xAC00 <= (c as u32) <= 0xD7A3 ==> is_wide(c),
{
}

} // verus!
