//! The name-server and system-domain fields of Settings: the entries a field lists, and
//! whether it is refused. Whether an entry reads as an IP address is the caller's to say, one
//! answer per entry.

use vstd::prelude::*;
use crate::text::{
    begins_with, chars_between, chars_of, starts_with_chars, string_from_chars, strip_start,
    trim, trim_bounds, trim_start_matches,
};

verus! {

/// What separates the entries of a list field: a comma, a space or a line break.
pub open spec fn separates(c: char) -> bool {
    c == ',' || c == ' ' || c == '\n'
}

/// The text cut at every separator, as `str::split` with those three characters.
pub open spec fn cut(s: Seq<char>) -> Seq<Seq<char>>
    decreases s.len(),
{
    if s.len() == 0 {
        seq![Seq::<char>::empty()]
    } else {
        let p = cut(s.drop_last());
        if separates(s.last()) {
            p.push(Seq::<char>::empty())
        } else {
            p.update(p.len() - 1, p.last().push(s.last()))
        }
    }
}

/// The pieces trimmed, the empty ones left out.
pub open spec fn kept(pieces: Seq<Seq<char>>) -> Seq<Seq<char>>
    decreases pieces.len(),
{
    if pieces.len() == 0 {
        Seq::empty()
    } else {
        let before = kept(pieces.drop_last());
        if trim(pieces.last()).len() == 0 {
            before
        } else {
            before.push(trim(pieces.last()))
        }
    }
}

/// The entries a list field holds.
pub open spec fn entries_of(text: Seq<char>) -> Seq<Seq<char>> {
    kept(cut(text))
}

proof fn lemma_cut_nonempty(s: Seq<char>)
    ensures
        cut(s).len() >= 1,
    decreases s.len(),
{
    if s.len() > 0 {
        lemma_cut_nonempty(s.drop_last());
    }
}

/// The entries a list field holds, each trimmed, none empty.
pub fn entries(text: &str) -> (r: Vec<String>)
    ensures
        r@.map_values(|e: String| e@) == entries_of(text@),
{
    let s = chars_of(text);
    let mut pieces: Vec<Vec<char>> = Vec::new();
    let mut current: Vec<char> = Vec::new();
    let mut k: usize = 0;
    assert(s@.take(0) =~= Seq::<char>::empty());
    assert(pieces@.map_values(|x: Vec<char>| x@).push(current@) =~= cut(s@.take(0)));
    while k < s.len()
        invariant
            k <= s@.len(),
            pieces@.map_values(|x: Vec<char>| x@).push(current@) == cut(s@.take(k as int)),
        decreases s.len() - k,
    {
        let c = s[k];
        let ghost before = s@.take(k as int);
        assert(s@.take(k + 1).drop_last() =~= before);
        assert(s@.take(k + 1).last() == c);
        proof {
            lemma_cut_nonempty(before);
        }
        if c == ',' || c == ' ' || c == '\n' {
            let done = current;
            pieces.push(done);
            current = Vec::new();
            assert(pieces@.map_values(|x: Vec<char>| x@).push(current@) =~= cut(before).push(
                Seq::<char>::empty(),
            ));
        } else {
            let ghost old_current = current@;
            current.push(c);
            assert(pieces@.map_values(|x: Vec<char>| x@).push(current@) =~= cut(before).update(
                cut(before).len() - 1,
                old_current.push(c),
            ));
        }
        k = k + 1;
    }
    assert(s@.take(s@.len() as int) =~= s@);
    let ghost before_last = pieces@.map_values(|x: Vec<char>| x@);
    let ghost last = current@;
    pieces.push(current);
    let ghost all = pieces@.map_values(|x: Vec<char>| x@);
    assert(all =~= before_last.push(last));
    assert(all == cut(text@));
    let mut out: Vec<String> = Vec::new();
    let mut i: usize = 0;
    assert(all.take(0) =~= Seq::<Seq<char>>::empty());
    while i < pieces.len()
        invariant
            i <= pieces@.len(),
            all == pieces@.map_values(|x: Vec<char>| x@),
            out@.map_values(|e: String| e@) == kept(all.take(i as int)),
        decreases pieces.len() - i,
    {
        assert(all.take(i + 1).drop_last() =~= all.take(i as int));
        assert(all.take(i + 1).last() == pieces@[i as int]@);
        let (a, b) = trim_bounds(pieces[i].as_slice());
        let piece = chars_between(pieces[i].as_slice(), a, b);
        if piece.len() > 0 {
            let ghost before = out@.map_values(|e: String| e@);
            out.push(string_from_chars(piece.as_slice()));
            assert(out@.map_values(|e: String| e@) =~= before.push(piece@));
        }
        i = i + 1;
    }
    assert(all.take(pieces@.len() as int) =~= all);
    assert(out@.map_values(|e: String| e@) == kept(cut(text@)));
    out
}

/// Why a name server was refused over HTTPS.
pub open spec fn not_a_url() -> Seq<char> {
    "Over HTTPS, a server is an https:// URL."@
}

/// Why a name server was refused on port 53.
pub open spec fn not_an_ip() -> Seq<char> {
    "On port 53, a server is an address like 1.1.1.1."@
}

/// Why a system domain was refused.
pub open spec fn not_a_domain() -> Seq<char> {
    "A domain, not an address: names are what is matched."@
}

/// Why the name servers listed are refused, for the first that is wrong: over HTTPS each has to
/// be an `https://` URL, on port 53 an IP address (`addresses` says, entry by entry, which
/// are); None when every one will do.
pub open spec fn servers_refusal(servers: Seq<Seq<char>>, https: bool, addresses: Seq<bool>) -> Option<
    Seq<char>,
>
    decreases servers.len(),
{
    if servers.len() == 0 {
        None
    } else {
        match servers_refusal(servers.drop_last(), https, addresses.take(servers.len() - 1)) {
            Some(why) => Some(why),
            None => if https && !begins_with(servers.last(), "https://"@) {
                Some(not_a_url())
            } else if !https && !addresses[servers.len() - 1] {
                Some(not_an_ip())
            } else {
                None
            },
        }
    }
}

/// The name servers listed, checked for the transport in use: `https` says whether questions
/// go over HTTPS, and `addresses` whether each entry reads as an IP address.
pub fn check_servers(servers: &[String], https: bool, addresses: &[bool]) -> (r: Result<(), String>)
    requires
        addresses@.len() == servers@.len(),
    ensures
        match r {
            Ok(()) => servers_refusal(servers@.map_values(|e: String| e@), https, addresses@) is None,
            Err(why) => servers_refusal(servers@.map_values(|e: String| e@), https, addresses@)
                == Some(why@),
        },
{
    let ghost all = servers@.map_values(|e: String| e@);
    let scheme = chars_of("https://");
    let mut i: usize = 0;
    assert(all.take(0) =~= Seq::<Seq<char>>::empty());
    while i < servers.len()
        invariant
            i <= servers@.len(),
            addresses@.len() == servers@.len(),
            scheme@ == "https://"@,
            all == servers@.map_values(|e: String| e@),
            servers_refusal(all.take(i as int), https, addresses@.take(i as int)) is None,
        decreases servers.len() - i,
    {
        proof {
            let next = all.take(i + 1);
            assert(next.drop_last() =~= all.take(i as int));
            assert(addresses@.take(i + 1).take(i as int) =~= addresses@.take(i as int));
            assert(next.last() == servers@[i as int]@);
            assert(addresses@.take(i + 1)[i as int] == addresses@[i as int]);
        }
        let entry = chars_of(servers[i].as_str());
        if https && !starts_with_chars(entry.as_slice(), scheme.as_slice()) {
            proof {
                lemma_refusal_stays(all, https, addresses@, i as int + 1);
            }
            return Err(String::from_str("Over HTTPS, a server is an https:// URL."));
        }
        if !https && !addresses[i] {
            proof {
                lemma_refusal_stays(all, https, addresses@, i as int + 1);
            }
            return Err(String::from_str("On port 53, a server is an address like 1.1.1.1."));
        }
        i = i + 1;
    }
    assert(all.take(servers@.len() as int) =~= all);
    assert(addresses@.take(servers@.len() as int) =~= addresses@);
    Ok(())
}

/// The first refusal among the first `k` entries is the refusal of them all.
proof fn lemma_refusal_stays(servers: Seq<Seq<char>>, https: bool, addresses: Seq<bool>, k: int)
    requires
        0 < k <= servers.len(),
        addresses.len() == servers.len(),
        servers_refusal(servers.take(k), https, addresses.take(k)) is Some,
    ensures
        servers_refusal(servers, https, addresses) == servers_refusal(
            servers.take(k),
            https,
            addresses.take(k),
        ),
    decreases servers.len() - k,
{
    if k < servers.len() {
        let next = servers.take(k + 1);
        assert(next.drop_last() =~= servers.take(k));
        assert(addresses.take(k + 1).take(k) =~= addresses.take(k));
        lemma_refusal_stays(servers, https, addresses, k + 1);
    } else {
        assert(servers.take(k) =~= servers);
        assert(addresses.take(k) =~= addresses);
    }
}

/// The system domains listed, each without the dots before it, as its IP-address check reads
/// it.
pub open spec fn domains_of(text: Seq<char>) -> Seq<Seq<char>> {
    entries_of(text).map_values(|e: Seq<char>| strip_start(e, "."@))
}

/// The system domains listed, each without the dots before it.
pub fn domain_entries(text: &str) -> (r: Vec<String>)
    ensures
        r@.map_values(|e: String| e@) == domains_of(text@),
{
    let listed = entries(text);
    let dot = chars_of(".");
    let mut out: Vec<String> = Vec::new();
    let mut i: usize = 0;
    while i < listed.len()
        invariant
            i <= listed@.len(),
            dot@ == "."@,
            out@.len() == i,
            forall|j: int| 0 <= j < i ==> out@[j]@ == strip_start(listed@[j]@, "."@),
        decreases listed.len() - i,
    {
        let entry = chars_of(listed[i].as_str());
        let bare = trim_start_matches(entry.as_slice(), dot.as_slice());
        out.push(string_from_chars(bare.as_slice()));
        i = i + 1;
    }
    assert(out@.map_values(|e: String| e@) =~= domains_of(text@));
    out
}

/// The system domains listed, refused when one of them, without its leading dots, reads as
/// an IP address (`addresses` says which do): what is matched is the name being resolved.
pub fn check_domains(addresses: &[bool]) -> (r: Result<(), String>)
    ensures
        match r {
            Ok(()) => !addresses@.contains(true),
            Err(why) => addresses@.contains(true) && why@ == not_a_domain(),
        },
{
    let mut i: usize = 0;
    while i < addresses.len()
        invariant
            i <= addresses@.len(),
            forall|j: int| 0 <= j < i ==> !addresses@[j],
        decreases addresses.len() - i,
    {
        if addresses[i] {
            assert(addresses@[i as int]);
            return Err(String::from_str("A domain, not an address: names are what is matched."));
        }
        i = i + 1;
    }
    Ok(())
}


proof fn lemma_cut_join(a: Seq<char>, b: Seq<char>, sep: char)
    requires
        separates(sep),
    ensures
        cut(a + seq![sep] + b) == cut(a) + cut(b),
    decreases b.len(),
{
    let s = a + seq![sep] + b;
    lemma_cut_nonempty(a);
    if b.len() == 0 {
        assert(s.drop_last() =~= a);
        assert(s.last() == sep);
        assert(cut(s) =~= cut(a) + cut(b));
    } else {
        lemma_cut_join(a, b.drop_last(), sep);
        lemma_cut_nonempty(b.drop_last());
        assert(s.drop_last() =~= a + seq![sep] + b.drop_last());
        assert(s.last() == b.last());
        assert(cut(s) =~= cut(a) + cut(b));
    }
}

/// No comma, space or line break in the text.
pub open spec fn one_entry(s: Seq<char>) -> bool {
    forall|i: int| 0 <= i < s.len() ==> s[i] != ',' && s[i] != ' ' && s[i] != '\n'
}

proof fn lemma_cut_whole(s: Seq<char>)
    requires
        forall|i: int| 0 <= i < s.len() ==> !separates(#[trigger] s[i]),
    ensures
        cut(s) == seq![s],
    decreases s.len(),
{
    if s.len() > 0 {
        assert forall|i: int| 0 <= i < s.drop_last().len() implies !separates(
            #[trigger] s.drop_last()[i],
        ) by {
            assert(s.drop_last()[i] == s[i]);
        }
        lemma_cut_whole(s.drop_last());
        assert(!separates(s[s.len() - 1]));
        assert(s.drop_last().push(s.last()) =~= s);
        assert(seq![s.drop_last()].update(0, s.drop_last().push(s.last())) =~= seq![s]);
    } else {
        assert(s =~= Seq::<char>::empty());
    }
}

/// A list field's entries are what lies between its commas, spaces and line breaks, trimmed:
/// one entry written alone is that entry, and two written with any one of the three between
/// them are those two -- a line break separating as a comma does.
pub proof fn law_entries_lie_between_commas_spaces_and_lines(a: Seq<char>, b: Seq<char>, sep: char)
    requires
        sep == ',' || sep == ' ' || sep == '\n',
        one_entry(a),
        one_entry(b),
        trim(a).len() > 0,
        trim(b).len() > 0,
    ensures
        entries_of(a) == seq![trim(a)],
        entries_of(a + seq![sep] + b) == seq![trim(a), trim(b)],
{
    assert forall|i: int| 0 <= i < a.len() implies !separates(#[trigger] a[i]) by {}
    assert forall|i: int| 0 <= i < b.len() implies !separates(#[trigger] b[i]) by {}
    lemma_cut_whole(a);
    lemma_cut_whole(b);
    lemma_cut_join(a, b, sep);
    let one = seq![a];
    assert(one.drop_last() =~= Seq::<Seq<char>>::empty());
    assert(kept(one.drop_last()) =~= Seq::<Seq<char>>::empty());
    assert(one.last() == a);
    assert(kept(one) =~= seq![trim(a)]);
    let two = seq![a] + seq![b];
    assert(two.drop_last() =~= one);
    assert(two.last() == b);
    assert(kept(two) =~= seq![trim(a), trim(b)]);
}

} // verus!
