//! Naming a process's systemd unit from the unified line of its cgroup file.
use vstd::prelude::*;
use crate::text::{
    chars_of, contains_word, ends_with, ends_with_word, has_word, slice_of,
    split_on, split_pieces, starts_with, starts_with_word,
};

verus! {

/// What `unescape::unescape` makes of a string: the string with its
/// backslash escapes decoded, or `None` where an escape is malformed.
pub uninterp spec fn unescaped(s: Seq<char>) -> Option<Seq<char>>;

/// The string holds no backslash, so nothing in it is an escape.
pub open spec fn no_escapes(s: Seq<char>) -> bool {
    forall|i: int| 0 <= i < s.len() ==> s[i] != '\x5C'
}

/// Relies on `unescape::unescape`, which decodes backslash escapes and gives
/// back a string without a backslash unchanged.
#[verifier::external_body]
fn unescape_chars(s: &Vec<char>) -> (r: Option<Vec<char>>)
    ensures
        r is Some <==> unescaped(s@) is Some,
        r is Some ==> unescaped(s@) == Some(r->Some_0@),
        no_escapes(s@) ==> r is Some && r->Some_0@ == s@,
{
    let text: String = s.iter().collect();
    match unescape::unescape(&text) {
        Some(u) => Some(u.chars().collect()),
        None => None,
    }
}

/// A unit name with its escapes decoded, or as it is where they are malformed.
pub open spec fn unescape_or_keep(s: Seq<char>) -> Seq<char> {
    match unescaped(s) {
        Some(u) => u,
        None => s,
    }
}

/// The unified-hierarchy line is the one at `i`, the first that starts with `0::`.
pub open spec fn first_unified_at(lines: Seq<Seq<char>>, i: int) -> bool {
    0 <= i < lines.len() && starts_with(lines[i], "0::"@) && forall|j: int|
        0 <= j < i ==> !starts_with(#[trigger] lines[j], "0::"@)
}

/// The name of a `.scope` unit: its second-to-last `-` segment, unescaped.
pub open spec fn scope_name(line: Seq<char>) -> Option<Seq<char>> {
    let segs = split_on(line, '-');
    if segs.len() > 1 {
        Some(unescape_or_keep(segs[segs.len() - 2]))
    } else {
        None
    }
}

/// The name of a `.service` unit: its last path segment without the suffix
/// and without any `@` instance, unescaped; for a D-Bus activated service the
/// last `-` segment of that.
pub open spec fn service_name(line: Seq<char>) -> Option<Seq<char>> {
    let last = split_on(line, '/').last();
    if last.len() >= 8 {
        let name = unescape_or_keep(split_on(last.subrange(0, last.len() - 8), '@')[0]);
        if contains_word(name, "dbus-:"@) {
            Some(split_on(name, '-').last())
        } else {
            Some(name)
        }
    } else {
        None
    }
}

/// The name that a cgroup file gives its process, if its unified line names
/// a scope or a service.
pub open spec fn cgroup_name(content: Seq<char>) -> Option<Seq<char>> {
    let lines = split_on(content, '\n');
    if exists|i: int| first_unified_at(lines, i) {
        let line = lines[choose|i: int| first_unified_at(lines, i)];
        if ends_with(line, ".scope"@) {
            scope_name(line)
        } else if ends_with(line, ".service"@) {
            service_name(line)
        } else {
            None
        }
    } else {
        None
    }
}

fn unescape_or_keep_exec(s: &Vec<char>) -> (r: Vec<char>)
    ensures
        r@ == unescape_or_keep(s@),
{
    match unescape_chars(s) {
        Some(u) => u,
        None => slice_of(s, 0, s.len()),
    }
}

/// The name that the content of a cgroup file gives its process, if any.
pub fn sanitize_cgroup(content: &str) -> (r: Option<Vec<char>>)
    ensures
        match cgroup_name(content@) {
            Some(n) => r matches Some(v) && v@ == n,
            None => r is None,
        },
{
    let t = chars_of(content);
    assert(t@.subrange(0, t.len() as int) =~= t@);
    let lines = split_pieces(&t, '\n');
    let ghost ls = split_on(t@, '\n');
    let prefix = chars_of("0::");
    let mut i: usize = 0;
    while i < lines.len() && !starts_with_word(&lines[i], &prefix)
        invariant
            lines.len() == ls.len(),
            forall|k: int| 0 <= k < lines.len() ==> #[trigger] lines[k]@ == ls[k],
            prefix@ == "0::"@,
            i <= lines.len(),
            forall|j: int| 0 <= j < i ==> !starts_with(#[trigger] ls[j], "0::"@),
        decreases lines.len() - i,
    {
        i = i + 1;
    }
    if i == lines.len() {
        assert(!exists|j: int| first_unified_at(ls, j));
        return None;
    }
    assert(first_unified_at(ls, i as int));
    proof {
        let c = choose|c: int| first_unified_at(ls, c);
        assert(c == i) by {
            if c < i {
                assert(!starts_with(ls[c], "0::"@));
            }
            if c > i {
                assert(!starts_with(ls[i as int], "0::"@));
            }
        }
    }
    let line = &lines[i];
    assert(line@ == ls[i as int]);
    if ends_with_word(line, &chars_of(".scope")) {
        let segs = split_pieces(line, '-');
        if segs.len() > 1 {
            Some(unescape_or_keep_exec(&segs[segs.len() - 2]))
        } else {
            None
        }
    } else if ends_with_word(line, &chars_of(".service")) {
        let segs = split_pieces(line, '/');
        let last = &segs[segs.len() - 1];
        if last.len() < 8 {
            return None;
        }
        let stem = slice_of(last, 0, last.len() - 8);
        let parts = split_pieces(&stem, '@');
        let name = unescape_or_keep_exec(&parts[0]);
        if has_word(&name, &chars_of("dbus-:")) {
            let dashes = split_pieces(&name, '-');
            Some(slice_of(&dashes[dashes.len() - 1], 0, dashes[dashes.len() - 1].len()))
        } else {
            Some(name)
        }
    } else {
        None
    }
}

} // verus!
