//! Which system proxy is ours to clear: only one that still points at the
//! local mixed inbound, so a proxy the user set up for something else
//! survives.
use vstd::prelude::*;

use crate::text::{
    decimal, eq_chars, find, find_exec, find_from, is_ws, lemma_find_from_bounds, trim_end, trim_start, one, push_decimal, slice_of,
    split_once, split_once_exec, to_chars, trim, trim_exec,
};

verus! {

broadcast use vstd::slice::group_slice_axioms;

/// `str::trim_end_matches` with a single character: every trailing `c` gone.
pub open spec fn trim_end_char(s: Seq<char>, c: char) -> Seq<char>
    decreases s.len(),
{
    if s.len() > 0 && s.last() == c {
        trim_end_char(s.drop_last(), c)
    } else {
        s
    }
}

/// The address one entry of a proxy server string names: the part after an
/// `=` (a per-scheme entry), trimmed, without a `scheme://` prefix or
/// trailing slashes.
pub open spec fn entry_address(entry: Seq<char>) -> Seq<char> {
    let a = trim(
        match split_once(entry, seq!['=']) {
            Some((_, after)) => after,
            None => entry,
        },
    );
    let b = match split_once(a, "://"@) {
        Some((_, after)) => after,
        None => a,
    };
    trim_end_char(b, '/')
}

/// Some `;`-separated entry of `s` names exactly `target`.
pub open spec fn some_entry_names(s: Seq<char>, target: Seq<char>) -> bool
    decreases s.len(),
{
    match find(s, seq![';']) {
        Some(i) => if 0 <= i < s.len() {
            entry_address(s.subrange(0, i)) == target || some_entry_names(
                s.subrange(i + 1, s.len() as int),
                target,
            )
        } else {
            false
        },
        None => entry_address(s) == target,
    }
}

/// Where the first `c` at or after `i` stands, as `find_from` reports it.
proof fn lemma_find_char_from(s: Seq<char>, c: char, i: int)
    requires
        0 <= i,
    ensures
        find_from(s, seq![c], i) matches Some(k) ==> i <= k < s.len() && s[k] == c && forall|j: int|
            i <= j < k ==> s[j] != c,
        find_from(s, seq![c], i) is None ==> forall|j: int| i <= j < s.len() ==> s[j] != c,
    decreases s.len() + 1 - i,
{
    if i + 1 > s.len() {
    } else if s.subrange(i, i + 1) == seq![c] {
        assert(s[i] == s.subrange(i, i + 1)[0]);
    } else {
        if s[i] == c {
            assert(s.subrange(i, i + 1) =~= seq![c]);
        }
        lemma_find_char_from(s, c, i + 1);
    }
}

/// Whether `s[a..b]` is one `;`-separated entry of `s`: it runs from the
/// start of the text or a `;` to the next `;` or the end, with no `;`
/// inside.
pub open spec fn is_entry(s: Seq<char>, a: int, b: int) -> bool {
    &&& 0 <= a <= b <= s.len()
    &&& (a == 0 || s[a - 1] == ';')
    &&& (b == s.len() || s[b] == ';')
    &&& forall|k: int| a <= k < b ==> s[k] != ';'
}

/// A proxy server string names the target exactly when one of its entries
/// does, whichever entry that is: the first, the last or any between.
pub proof fn lemma_any_entry_counts(s: Seq<char>, target: Seq<char>)
    ensures
        some_entry_names(s, target) <==> exists|a: int, b: int|
            #[trigger] is_entry(s, a, b) && entry_address(s.subrange(a, b)) == target,
    decreases s.len(),
{
    lemma_find_char_from(s, ';', 0);
    match find(s, seq![';']) {
        Some(i) => {
            let rest = s.subrange(i + 1, s.len() as int);
            lemma_any_entry_counts(rest, target);
            if some_entry_names(s, target) {
                if entry_address(s.subrange(0, i)) == target {
                    assert(is_entry(s, 0, i));
                } else {
                    assert(some_entry_names(rest, target));
                    let (a, b) = choose|a: int, b: int|
                        #[trigger] is_entry(rest, a, b) && entry_address(rest.subrange(a, b)) == target;
                    assert(s.subrange(a + i + 1, b + i + 1) =~= rest.subrange(a, b));
                    assert forall|k: int| a + i + 1 <= k < b + i + 1 implies s[k] != ';' by {
                        assert(s[k] == rest[k - i - 1]);
                    }
                    if a > 0 {
                        assert(s[a + i] == rest[a - 1]);
                    }
                    if b < rest.len() {
                        assert(s[b + i + 1] == rest[b]);
                    }
                    assert(is_entry(s, a + i + 1, b + i + 1));
                }
            } else {
                assert forall|a: int, b: int|
                    #[trigger] is_entry(s, a, b) implies entry_address(s.subrange(a, b)) != target by {
                    if a == 0 {
                        if b > i {
                            assert(s[i] != ';');
                        }
                        if b < i {
                            assert(s[b] == ';');
                        }
                        assert(b == i);
                    } else {
                        assert(s[a - 1] == ';');
                        assert(a - 1 >= i);
                        let a2 = a - i - 1;
                        let b2 = b - i - 1;
                        assert(rest.subrange(a2, b2) =~= s.subrange(a, b));
                        assert forall|k: int| a2 <= k < b2 implies rest[k] != ';' by {
                            assert(rest[k] == s[k + i + 1]);
                        }
                        if a2 > 0 {
                            assert(rest[a2 - 1] == s[a - 1]);
                        }
                        if b2 < rest.len() {
                            assert(rest[b2] == s[b]);
                        }
                        assert(is_entry(rest, a2, b2));
                    }
                }
            }
        },
        None => {
            if some_entry_names(s, target) {
                assert(s.subrange(0, s.len() as int) =~= s);
                assert(is_entry(s, 0, s.len() as int));
            } else {
                assert forall|a: int, b: int|
                    #[trigger] is_entry(s, a, b) implies entry_address(s.subrange(a, b)) != target by {
                    if a > 0 {
                        assert(s[a - 1] != ';');
                    }
                    if b < s.len() {
                        assert(s[b] != ';');
                    }
                    assert(s.subrange(0, s.len() as int) =~= s);
                }
            }
        },
    }
}

/// The system proxy is ours when any entry of its server string, not only
/// the first, names the local mixed inbound on `port`.
pub proof fn lemma_proxy_is_ours_by_any_entry(server: Seq<char>, port: u16, a: int, b: int)
    requires
        is_entry(server, a, b),
        entry_address(server.subrange(a, b)) == local_address(port),
    ensures
        some_entry_names(server, local_address(port)),
{
    lemma_any_entry_counts(server, local_address(port));
}

/// An entry that is a bare address (no `=`, no `/`, no whitespace) names
/// exactly itself.
pub proof fn lemma_bare_address_names_itself(e: Seq<char>)
    requires
        forall|i: int| 0 <= i < e.len() ==> e[i] != '=' && e[i] != '/' && !is_ws(#[trigger] e[i]),
    ensures
        entry_address(e) == e,
{
    reveal_strlit("://");
    lemma_find_char_from(e, '=', 0);
    assert(find(e, seq!['=']) is None);
    assert(trim_start(e) == e);
    assert(trim_end(e) == e);
    lemma_find_from_bounds(e, "://"@, 0);
    if let Some(k) = find(e, "://"@) {
        assert(e.subrange(k, k + 3)[1] == e[k + 1]);
        assert("://"@[1] == '/');
    }
    assert(find(e, "://"@) is None);
}

/// A per-scheme entry `key=address` names what its address part names:
/// the key before the first `=` is set aside.
pub proof fn lemma_scheme_key_is_set_aside(key: Seq<char>, address: Seq<char>)
    requires
        forall|i: int| 0 <= i < key.len() ==> key[i] != '=',
        forall|i: int| 0 <= i < address.len() ==> address[i] != '=',
    ensures
        entry_address(key + seq!['='] + address) == entry_address(address),
{
    let e = key + seq!['='] + address;
    lemma_find_char_from(e, '=', 0);
    lemma_find_char_from(address, '=', 0);
    assert(e[key.len() as int] == '=');
    assert forall|j: int| 0 <= j < key.len() implies e[j] != '=' by {
        assert(e[j] == key[j]);
    }
    assert(find(e, seq!['=']) == Some(key.len() as int));
    assert(e.subrange(key.len() + 1int, e.len() as int) =~= address);
    assert(find(address, seq!['=']) is None);
}

/// The address of the local mixed inbound on `port`.
pub open spec fn local_address(port: u16) -> Seq<char> {
    "127.0.0.1:"@ + decimal(port as nat)
}

pub(crate) fn trim_end_char_exec(v: &[char], c: char) -> (r: Vec<char>)
    ensures
        r@ == trim_end_char(v@, c),
{
    let mut j: usize = v.len();
    assert(v@.subrange(0, j as int) == v@);
    while j > 0 && v[j - 1] == c
        invariant
            j <= v@.len(),
            trim_end_char(v@, c) == trim_end_char(v@.subrange(0, j as int), c),
        decreases j,
    {
        proof {
            let t = v@.subrange(0, j as int);
            assert(t.drop_last() == v@.subrange(0, j - 1));
        }
        j = j - 1;
    }
    proof {
        assert(v@.subrange(0, v@.len() as int) == v@);
    }
    slice_of(v, 0, j)
}

fn entry_address_exec(entry: &[char]) -> (r: Vec<char>)
    ensures
        r@ == entry_address(entry@),
{
    let eq = one('=');
    let raw = match split_once_exec(entry, eq.as_slice()) {
        Some((_, after)) => after,
        None => slice_of(entry, 0, entry.len()),
    };
    proof {
        assert(entry@.subrange(0, entry@.len() as int) == entry@);
    }
    let a = trim_exec(raw.as_slice());
    let scheme = to_chars("://");
    let b = match split_once_exec(a.as_slice(), scheme.as_slice()) {
        Some((_, after)) => after,
        None => a,
    };
    trim_end_char_exec(b.as_slice(), '/')
}

fn some_entry_names_exec(s: &[char], target: &[char]) -> (b: bool)
    ensures
        b == some_entry_names(s@, target@),
    decreases s@.len(),
{
    let semi = one(';');
    match find_exec(s, semi.as_slice()) {
        Some(i) => {
            proof {
                lemma_find_from_bounds(s@, semi@, 0);
            }
            let sl = s.len();
            assert(i + 1 <= sl);
            let entry = slice_of(s, 0, i);
            let address = entry_address_exec(entry.as_slice());
            if eq_chars(address.as_slice(), target) {
                return true;
            }
            let rest = slice_of(s, i + 1, sl);
            some_entry_names_exec(rest.as_slice(), target)
        },
        None => {
            let address = entry_address_exec(s);
            eq_chars(address.as_slice(), target)
        },
    }
}

/// Whether a WinINet proxy server string names `127.0.0.1:port`, as a bare
/// address, in a per-scheme list such as `http=127.0.0.1:2080;https=...`,
/// or with a scheme prefix.
pub fn points_at_local_port(server: &str, port: u16) -> (b: bool)
    ensures
        b == some_entry_names(server@, local_address(port)),
{
    let mut target = String::new();
    crate::text::push_str(&mut target, "127.0.0.1:");
    push_decimal(&mut target, port as u128);
    let t = to_chars(target.as_str());
    let s = to_chars(server);
    some_entry_names_exec(s.as_slice(), t.as_slice())
}

/// Whether the system proxy should be reset to direct once the core on
/// `port` has exited: only when a proxy is enabled (`enabled_server`) and it
/// still points at that core's own inbound.
pub fn clear_if_ours(port: u16, enabled_server: Option<&str>) -> (clear: bool)
    ensures
        clear == match enabled_server {
            Some(server) => some_entry_names(server@, local_address(port)),
            None => false,
        },
{
    match enabled_server {
        Some(server) => points_at_local_port(server, port),
        None => false,
    }
}

} // verus!
