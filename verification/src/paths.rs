//! Equality of filesystem paths by their components, as `Path` compares them
//! on Unix: repeated separators and a trailing separator are ignored, `.`
//! is dropped except at the start of a relative path, and a leading `/` is
//! the root.

use vstd::prelude::*;

verus! {

/// A component that the path keeps: not empty and not `.`.
pub open spec fn kept_component(segment: Seq<char>) -> bool {
    segment.len() > 0 && segment != seq!['.']
}

/// The components kept from the first `n` characters of `s`, and the
/// segment still being read after them.
pub open spec fn scan_components(s: Seq<char>, n: nat) -> (Seq<Seq<char>>, Seq<char>)
    decreases n,
{
    if n == 0 || n > s.len() {
        (Seq::empty(), Seq::empty())
    } else {
        let (done, current) = scan_components(s, (n - 1) as nat);
        if s[n - 1] == '/' {
            (if kept_component(current) {
                done.push(current)
            } else {
                done
            }, Seq::empty())
        } else {
            (done, current.push(s[n - 1]))
        }
    }
}

/// The leading component: `/` for the root of an absolute path, `.` for a
/// relative path that starts with the current directory.
pub open spec fn leading_component(s: Seq<char>) -> Seq<Seq<char>> {
    if s.len() > 0 && s[0] == '/' {
        seq![seq!['/']]
    } else if s.len() > 0 && s[0] == '.' && (s.len() == 1 || s[1] == '/') {
        seq![seq!['.']]
    } else {
        Seq::empty()
    }
}

/// The components of the path `s`, each written as its text (the root as
/// `/`, the current directory as `.`, the parent directory as `..`).
pub open spec fn path_components(s: Seq<char>) -> Seq<Seq<char>> {
    let (done, current) = scan_components(s, s.len());
    leading_component(s) + if kept_component(current) {
        done.push(current)
    } else {
        done
    }
}

/// Whether two paths name the same file by their components.
pub open spec fn same_path(a: Seq<char>, b: Seq<char>) -> bool {
    path_components(a) == path_components(b)
}

/// The texts of a list of character vectors.
pub open spec fn char_texts(v: Seq<Vec<char>>) -> Seq<Seq<char>> {
    Seq::new(v.len(), |i: int| v[i]@)
}

fn chars_equal(a: &Vec<char>, b: &Vec<char>) -> (r: bool)
    ensures
        r == (a@ == b@),
{
    if a.len() != b.len() {
        return false;
    }
    let mut i: usize = 0;
    while i < a.len()
        invariant
            a.len() == b.len(),
            i <= a.len(),
            forall|k: int| 0 <= k < i ==> a@[k] == b@[k],
        decreases a.len() - i,
    {
        if a[i] != b[i] {
            return false;
        }
        i = i + 1;
    }
    assert(a@ =~= b@);
    true
}

fn is_dot(segment: &Vec<char>) -> (r: bool)
    ensures
        r == (segment@ == seq!['.']),
{
    if segment.len() == 1 && segment[0] == '.' {
        assert(segment@ =~= seq!['.']);
        true
    } else {
        false
    }
}

/// The components of the path `s`.
fn components_of(s: &str) -> (r: Vec<Vec<char>>)
    ensures
        char_texts(r@) == path_components(s@),
{
    let len = s.unicode_len();
    let mut done: Vec<Vec<char>> = Vec::new();
    if len > 0 && s.get_char(0) == '/' {
        let mut root: Vec<char> = Vec::new();
        root.push('/');
        assert(root@ =~= seq!['/']);
        done.push(root);
    } else if len > 0 && s.get_char(0) == '.' && (len == 1 || s.get_char(1) == '/') {
        let mut here: Vec<char> = Vec::new();
        here.push('.');
        assert(here@ =~= seq!['.']);
        done.push(here);
    }
    let ghost lead = leading_component(s@);
    assert(char_texts(done@) =~= lead);
    let mut current: Vec<char> = Vec::new();
    let mut k: usize = 0;
    while k < len
        invariant
            len == s@.len(),
            k <= len,
            lead == leading_component(s@),
            char_texts(done@) == lead + scan_components(s@, k as nat).0,
            current@ == scan_components(s@, k as nat).1,
        decreases len - k,
    {
        let c = s.get_char(k);
        let ghost scanned = scan_components(s@, k as nat);
        assert(scan_components(s@, (k + 1) as nat) == (if c == '/' {
            (if kept_component(scanned.1) {
                scanned.0.push(scanned.1)
            } else {
                scanned.0
            }, Seq::<char>::empty())
        } else {
            (scanned.0, scanned.1.push(c))
        }));
        if c == '/' {
            if current.len() > 0 && !is_dot(&current) {
                let finished = current;
                let ghost before = char_texts(done@);
                done.push(finished);
                assert(char_texts(done@) =~= before.push(scanned.1));
                assert(lead + scanned.0.push(scanned.1) =~= (lead + scanned.0).push(scanned.1));
            }
            current = Vec::new();
            assert(current@ =~= Seq::<char>::empty());
        } else {
            current.push(c);
        }
        k = k + 1;
    }
    let ghost scanned = scan_components(s@, len as nat);
    if current.len() > 0 && !is_dot(&current) {
        let finished = current;
        let ghost before = char_texts(done@);
        done.push(finished);
        assert(char_texts(done@) =~= before.push(scanned.1));
        assert(lead + scanned.0.push(scanned.1) =~= (lead + scanned.0).push(scanned.1));
    } else {
        assert(char_texts(done@) =~= lead + scanned.0);
    }
    done
}

/// Whether the paths `a` and `b` name the same file by their components,
/// so that `out//r.json`, `out/./r.json` and `out/r.json/` all name
/// `out/r.json`.
pub fn paths_equal(a: &str, b: &str) -> (r: bool)
    ensures
        r == same_path(a@, b@),
{
    let ca = components_of(a);
    let cb = components_of(b);
    if ca.len() != cb.len() {
        assert(char_texts(ca@).len() != char_texts(cb@).len());
        return false;
    }
    let mut i: usize = 0;
    while i < ca.len()
        invariant
            ca.len() == cb.len(),
            char_texts(ca@) == path_components(a@),
            char_texts(cb@) == path_components(b@),
            i <= ca.len(),
            forall|k: int| 0 <= k < i ==> char_texts(ca@)[k] == char_texts(cb@)[k],
        decreases ca.len() - i,
    {
        if !chars_equal(&ca[i], &cb[i]) {
            assert(char_texts(ca@)[i as int] != char_texts(cb@)[i as int]);
            assert(char_texts(ca@) != char_texts(cb@));
            return false;
        }
        i = i + 1;
    }
    assert(char_texts(ca@) =~= char_texts(cb@));
    true
}

} // verus!
