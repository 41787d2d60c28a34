//! How the rules window writes an address template in its narrow columns.

use vstd::prelude::*;
use crate::text::{
    begins_with, chars_between, chars_of, contains_char, each_once, find_from, find_text,
    first_met, starts_with_chars, string_from_chars,
};

verus! {

/// What follows the first `://` of a template, or the whole template when it has none.
pub open spec fn bare_of(template: Seq<char>) -> Seq<char> {
    match find_from(template, "://"@, 0) {
        Some(i) => template.skip(i + 3),
        None => template,
    }
}

/// A template as the match column shows it: without the scheme, which every rule shares and
/// which took the narrow column's first eight characters.
pub fn bare(template: &str) -> (r: String)
    ensures
        r@ == bare_of(template@),
{
    let t = chars_of(template);
    let sep = chars_of("://");
    proof {
        reveal_strlit("://");
    }
    match find_text(t.as_slice(), sep.as_slice()) {
        Some(i) => {
            assert(sep@.len() == 3);
            let n = t.len();
            assert(i + 3 <= n);
            let rest = chars_between(t.as_slice(), i + 3, n);
            assert(rest@ =~= t@.skip(i + 3));
            string_from_chars(rest.as_slice())
        },
        None => String::from_str(template),
    }
}

/// The host of an address template, or of the address a rule matched when the template
/// starts from it (`{url}`): the text between its first `://` and the next `/` -- or the next
/// `://` or the end, whichever comes first; None when there is no `://`, or that text is
/// empty or has a part to fill (`{`) in it.
pub open spec fn host_of_spec(template: Seq<char>, pattern: Seq<char>) -> Option<Seq<char>> {
    let t = if begins_with(template, "{url}"@) {
        pattern
    } else {
        template
    };
    match find_from(t, "://"@, 0) {
        None => None,
        Some(i) => {
            let after = t.skip(i + 3);
            let piece = match find_from(after, "://"@, 0) {
                Some(j) => after.take(j),
                None => after,
            };
            let host = match find_from(piece, "/"@, 0) {
                Some(k) => piece.take(k),
                None => piece,
            };
            if host.contains('{') || host.len() == 0 {
                None
            } else {
                Some(host)
            }
        },
    }
}

/// The host of an address template, or of the address a rule matched when the template starts
/// from it, as a sum file beside the file does; None where the host is itself a part to fill.
pub fn host_of(template: &str, pattern: &str) -> (r: Option<String>)
    ensures
        match r {
            Some(h) => host_of_spec(template@, pattern@) == Some(h@),
            None => host_of_spec(template@, pattern@) is None,
        },
{
    let whole = chars_of(template);
    let url = chars_of("{url}");
    let t = if starts_with_chars(whole.as_slice(), url.as_slice()) {
        chars_of(pattern)
    } else {
        whole
    };
    let sep = chars_of("://");
    let slash = chars_of("/");
    proof {
        reveal_strlit("://");
        reveal_strlit("{url}");
        reveal_strlit("/");
    }
    let i = match find_text(t.as_slice(), sep.as_slice()) {
        Some(i) => i,
        None => return None,
    };
    assert(sep@.len() == 3);
    let n = t.len();
    assert(i + 3 <= n);
    let after = chars_between(t.as_slice(), i + 3, n);
    assert(after@ =~= t@.skip(i + 3));
    let piece = match find_text(after.as_slice(), sep.as_slice()) {
        Some(j) => {
            let p = chars_between(after.as_slice(), 0, j);
            assert(p@ =~= after@.take(j as int));
            p
        },
        None => after,
    };
    let host = match find_text(piece.as_slice(), slash.as_slice()) {
        Some(k) => {
            let h = chars_between(piece.as_slice(), 0, k);
            assert(h@ =~= piece@.take(k as int));
            h
        },
        None => piece,
    };
    if contains_char(host.as_slice(), '{') || host.len() == 0 {
        None
    } else {
        Some(string_from_chars(host.as_slice()))
    }
}

/// The tabs along the window's foot.
#[derive(Clone, Copy, Debug, PartialEq, Eq, Structural)]
pub enum Tab {
    All,
    Rules,
    Families,
    Authorities,
    Choices,
    Problems,
}

/// What a row stands for.
#[derive(Clone, Copy, Debug, PartialEq, Eq, Structural)]
pub enum Kind {
    Entry,
    Family,
    Authority,
    Choice,
    Problem,
}

/// Which rows a tab shows: every kind under All but the authorities and the problems, and
/// under each other tab its own kind.
pub open spec fn shown(tab: Tab, kind: Kind) -> bool {
    match tab {
        Tab::All => kind != Kind::Problem && kind != Kind::Authority,
        Tab::Rules => kind == Kind::Entry,
        Tab::Families => kind == Kind::Family,
        Tab::Authorities => kind == Kind::Authority,
        Tab::Choices => kind == Kind::Choice,
        Tab::Problems => kind == Kind::Problem,
    }
}

/// Which rows a tab shows. The authorities are not among all of them: each is marked where a
/// rule reaches it, and has a tab of its own saying which rules do.
pub fn shows(tab: Tab, kind: Kind) -> (r: bool)
    ensures
        r == shown(tab, kind),
{
    match tab {
        Tab::All => !(kind == Kind::Problem || kind == Kind::Authority),
        Tab::Rules => kind == Kind::Entry,
        Tab::Families => kind == Kind::Family,
        Tab::Authorities => kind == Kind::Authority,
        Tab::Choices => kind == Kind::Choice,
        Tab::Problems => kind == Kind::Problem,
    }
}

/// Every row has a tab of its own kind to show it; under All, only the authorities and the
/// problems are left out.
pub proof fn law_every_kind_has_a_tab(kind: Kind)
    ensures
        exists|tab: Tab| tab != Tab::All && #[trigger] shown(tab, kind),
        shown(Tab::All, kind) <==> !(kind == Kind::Problem || kind == Kind::Authority),
{
    match kind {
        Kind::Entry => assert(shown(Tab::Rules, kind)),
        Kind::Family => assert(shown(Tab::Families, kind)),
        Kind::Authority => assert(shown(Tab::Authorities, kind)),
        Kind::Choice => assert(shown(Tab::Choices, kind)),
        Kind::Problem => assert(shown(Tab::Problems, kind)),
    }
}


/// The hosts a rule reaches, each once, in the order first met. Whether one is an authority
/// is the rules' to say beside each.
pub fn hosts(names: &[String]) -> (out: Vec<String>)
    ensures
        out@.map_values(|h: String| h@) == first_met(names@.map_values(|h: String| h@)),
{
    each_once(names)
}

/// Each host is listed once, and every host met is listed.
pub proof fn law_each_host_once(names: Seq<Seq<char>>)
    ensures
        forall|a: int, b: int|
            0 <= a < b < first_met(names).len() ==> first_met(names)[a] != first_met(names)[b],
        forall|x: Seq<char>| first_met(names).contains(x) <==> names.contains(x),
    decreases names.len(),
{
    if names.len() > 0 {
        let rest = names.drop_last();
        law_each_host_once(rest);
        assert forall|x: Seq<char>| first_met(names).contains(x) <==> names.contains(x) by {
            if names.contains(x) && x != names.last() {
                let k = choose|k: int| 0 <= k < names.len() && names[k] == x;
                assert(rest[k] == x);
            }
            if rest.contains(x) {
                let k = choose|k: int| 0 <= k < rest.len() && rest[k] == x;
                assert(names[k] == x);
            }
            if first_met(names).contains(x) && !first_met(rest).contains(x) {
                assert(x == names.last());
                assert(names[names.len() - 1] == x);
            }
            if first_met(rest).contains(x) {
                let k = choose|k: int| 0 <= k < first_met(rest).len() && first_met(rest)[k] == x;
                assert(first_met(names)[k] == x);
            }
            if x == names.last() {
                assert(names[names.len() - 1] == x);
                if !first_met(rest).contains(x) {
                    assert(first_met(names)[first_met(rest).len() as int] == x);
                }
            }
        }
    } else {
        assert forall|x: Seq<char>| first_met(names).contains(x) <==> names.contains(x) by {
            if names.contains(x) {
                let k = choose|k: int| 0 <= k < names.len() && names[k] == x;
            }
        }
    }
}

} // verus!
