//! The computed parts of cookie handling: assembling the cookie string and
//! finding a cookie in a cookie header.
//!
//! Reading and writing the actual cookie jar is host glue outside this
//! crate; it stores the exact string assembled here and hands the whole
//! cookie header text to [`find_cookie`].

use vstd::prelude::*;
use vstd::string::{StrSliceExecFns, StringExecFns};

verus! {

/// The attributes appended behind a secure cookie's `name=value` pair: the
/// optional path attribute, then `Secure` and `SameSite=Strict`.
pub open spec fn cookie_suffix(path: Option<&str>) -> Seq<char> {
    (match path {
        Some(p) => "; Path={}"@ + p@,
        None => Seq::<char>::empty(),
    }) + "; Secure"@ + "; SameSite=Strict"@
}

/// The string stored for a secure cookie: `name=value`, the optional path
/// attribute, and the `Secure` and `SameSite=Strict` attributes.
pub fn cookie_string(name: &str, value: &str, path: Option<&str>) -> (r: String)
    ensures
        r@ == name@ + "="@ + value@ + cookie_suffix(path),
{
    let mut s = name.to_owned();
    s.append("=");
    s.append(value);
    match path {
        Some(p) => {
            s.append("; Path={}");
            s.append(p);
        },
        None => {
        },
    }
    s.append("; Secure");
    s.append("; SameSite=Strict");
    proof {
        assert(s@ =~= name@ + "="@ + value@ + cookie_suffix(path));
    }
    s
}

/// The whitespace trimmed around cookie entries, keys and values.
pub open spec fn is_cookie_space(c: char) -> bool {
    c == ' ' || c == '\t' || c == '\n' || c == '\r'
}

/// `s` with leading and trailing whitespace removed.
pub open spec fn trim_spec(s: Seq<char>) -> Seq<char>
    decreases s.len(),
{
    if s.len() == 0 {
        s
    } else if is_cookie_space(s[0]) {
        trim_spec(s.subrange(1, s.len() as int))
    } else if is_cookie_space(s[s.len() - 1]) {
        trim_spec(s.subrange(0, s.len() - 1))
    } else {
        s
    }
}

/// The position of the first occurrence of `c` in `s`, or `s.len()` when
/// there is none.
pub open spec fn first_index_of(s: Seq<char>, c: char) -> nat
    decreases s.len(),
{
    if s.len() == 0 {
        0
    } else if s[0] == c {
        0
    } else {
        1 + first_index_of(s.subrange(1, s.len() as int), c)
    }
}

/// What one `;`-separated entry contributes: trim the entry, split it at
/// its first `=`, trim key and value; the value when the key matches
/// `name`, nothing when it differs or the entry has no `=`.
pub open spec fn cookie_entry_value(entry: Seq<char>, name: Seq<char>) -> Option<Seq<char>> {
    let t = trim_spec(entry);
    let i = first_index_of(t, '=') as int;
    if i == t.len() {
        None
    } else {
        let key = trim_spec(t.subrange(0, i));
        let value = trim_spec(t.subrange(i + 1, t.len() as int));
        if key == name {
            Some(value)
        } else {
            None
        }
    }
}

/// The value of the first `;`-separated entry of `s` whose trimmed key
/// matches `name`, if any.
pub open spec fn find_cookie_spec(s: Seq<char>, name: Seq<char>) -> Option<Seq<char>>
    decreases s.len(),
{
    let i = first_index_of(s, ';') as int;
    let entry = s.subrange(0, if i <= s.len() {
        i
    } else {
        s.len() as int
    });
    match cookie_entry_value(entry, name) {
        Some(v) => Some(v),
        None => if i >= s.len() {
            None
        } else {
            find_cookie_spec(s.subrange(i + 1, s.len() as int), name)
        },
    }
}

/// The first occurrence of `c` in `s` at or after `from` and before `end`,
/// or `end` when there is none.
fn scan_char(s: &str, from: usize, end: usize, c: char) -> (r: usize)
    requires
        from <= end,
        end <= s@.len(),
    ensures
        from <= r <= end,
        forall|k: int| from <= k < r ==> s@[k] != c,
        r < end ==> s@[r as int] == c,
{
    let mut i = from;
    while i < end
        invariant
            from <= i <= end,
            end <= s@.len(),
            forall|k: int| from <= k < i ==> s@[k] != c,
        decreases end - i,
    {
        if s.get_char(i) == c {
            return i;
        }
        i += 1;
    }
    i
}

fn is_space(c: char) -> (r: bool)
    ensures
        r == is_cookie_space(c),
{
    c == ' ' || c == '\t' || c == '\n' || c == '\r'
}

/// The bounds of `[from, end)` with whitespace stripped from both sides.
fn trim_bounds(s: &str, from: usize, end: usize) -> (r: (usize, usize))
    requires
        from <= end,
        end <= s@.len(),
    ensures
        from <= r.0 <= r.1 <= end,
        forall|k: int| from <= k < r.0 ==> is_cookie_space(s@[k]),
        forall|k: int| r.1 <= k < end ==> is_cookie_space(s@[k]),
        r.0 < r.1 ==> !is_cookie_space(s@[r.0 as int]) && !is_cookie_space(s@[r.1 - 1]),
    {
    let mut a = from;
    while a < end && is_space(s.get_char(a))
        invariant
            from <= a <= end,
            end <= s@.len(),
            forall|k: int| from <= k < a ==> is_cookie_space(s@[k]),
        decreases end - a,
    {
        a += 1;
    }
    let mut b = end;
    while b > a && is_space(s.get_char(b - 1))
        invariant
            a <= b <= end,
            end <= s@.len(),
            forall|k: int| b <= k < end ==> is_cookie_space(s@[k]),
        decreases b,
    {
        b -= 1;
    }
    (a, b)
}

/// Whether two string slices hold the same characters.
fn str_eq(a: &str, b: &str) -> (r: bool)
    ensures
        r == (a@ == b@),
{
    let la = a.unicode_len();
    let lb = b.unicode_len();
    if la != lb {
        return false;
    }
    let mut i: usize = 0;
    while i < la
        invariant
            0 <= i <= la,
            la == a@.len(),
            la == b@.len(),
            forall|k: int| 0 <= k < i ==> a@[k] == b@[k],
        decreases la - i,
    {
        if a.get_char(i) != b.get_char(i) {
            return false;
        }
        i += 1;
    }
    proof {
        assert(a@ =~= b@);
    }
    true
}

/// The characterization of [`first_index_of`]: `j` points at the first
/// occurrence of `c`, or at the end when there is none.
proof fn lemma_first_index_found(s: Seq<char>, c: char, j: int)
    requires
        0 <= j <= s.len(),
        forall|k: int| 0 <= k < j ==> s[k] != c,
        j < s.len() ==> s[j] == c,
    ensures
        first_index_of(s, c) == j,
    decreases s.len(),
{
    if s.len() == 0 {
    } else if s[0] == c {
        assert(j == 0);
    } else {
        assert(j >= 1);
        let rest = s.subrange(1, s.len() as int);
        assert(forall|k: int| 0 <= k < j - 1 ==> rest[k] != c);
        assert(j - 1 < rest.len() ==> rest[j - 1] == c);
        lemma_first_index_found(rest, c, j - 1);
    }
}

/// The characterization of [`trim_spec`]: whitespace before `a` and from
/// `b` on, none at the boundary characters, so the trim is `s[a .. b)`.
proof fn lemma_trim_range(s: Seq<char>, a: int, b: int)
    requires
        0 <= a <= b <= s.len(),
        forall|k: int| 0 <= k < a ==> is_cookie_space(s[k]),
        forall|k: int| b <= k < s.len() ==> is_cookie_space(s[k]),
        a < b ==> !is_cookie_space(s[a]),
        a < b ==> !is_cookie_space(s[b - 1]),
    ensures
        trim_spec(s) == s.subrange(a, b),
    decreases s.len(),
{
    if s.len() == 0 {
        assert(s.subrange(0, 0) =~= s);
    } else if is_cookie_space(s[0]) {
        let rest = s.subrange(1, s.len() as int);
        if a == b {
            lemma_trim_range(rest, 0, 0);
            assert(s.subrange(a, b) =~= rest.subrange(0, 0));
        } else {
            assert(a >= 1);
            lemma_trim_range(rest, a - 1, b - 1);
            assert(s.subrange(a, b) =~= rest.subrange(a - 1, b - 1));
        }
    } else if is_cookie_space(s[s.len() - 1]) {
        let head = s.subrange(0, s.len() - 1);
        assert(a < b);
        assert(b <= s.len() - 1);
        lemma_trim_range(head, a, b);
        assert(s.subrange(a, b) =~= head.subrange(a, b));
    } else {
        assert(a == 0);
        assert(b == s.len());
        assert(s.subrange(0, s.len() as int) =~= s);
    }
}

/// Handle the entry in the window `[seg_start, seg_end)` of the header:
/// the trimmed value when its trimmed key matches `name`.
fn entry_value(cookies: &str, seg_start: usize, seg_end: usize, name: &str) -> (r: Option<String>)
    requires
        seg_start <= seg_end <= cookies@.len(),
    ensures
        (r matches Some(v) ==> cookie_entry_value(
            cookies@.subrange(seg_start as int, seg_end as int),
            name@,
        ) == Some(v@)),
        r is None ==> cookie_entry_value(
            cookies@.subrange(seg_start as int, seg_end as int),
            name@,
        ) is None,
{
    let ghost entry = cookies@.subrange(seg_start as int, seg_end as int);
    // trim the entry
    let (ta, tb) = trim_bounds(cookies, seg_start, seg_end);
    proof {
        lemma_trim_range(entry, ta - seg_start, tb - seg_start);
        assert(entry.subrange(ta - seg_start, tb - seg_start) =~= cookies@.subrange(
            ta as int,
            tb as int,
        ));
    }
    let ghost t = trim_spec(entry);
    // split the trimmed entry at its first `=`
    let eq = scan_char(cookies, ta, tb, '=');
    proof {
        assert(forall|k: int| 0 <= k < t.len() ==> t[k] == cookies@[ta + k]);
        lemma_first_index_found(t, '=', eq - ta);
    }
    if eq == tb {
        // no `=` in this entry
        return None;
    }
    // trim the key and compare it with the wanted name
    let (ka, kb) = trim_bounds(cookies, ta, eq);
    proof {
        assert(t.subrange(0, eq - ta) =~= cookies@.subrange(ta as int, eq as int));
        lemma_trim_range(t.subrange(0, eq - ta), ka - ta, kb - ta);
        assert(t.subrange(0, eq - ta).subrange(ka - ta, kb - ta) =~= cookies@.subrange(
            ka as int,
            kb as int,
        ));
    }
    let key = cookies.substring_char(ka, kb);
    if !str_eq(key, name) {
        return None;
    }
    // trim the value and hand it out
    let (va, vb) = trim_bounds(cookies, eq + 1, tb);
    proof {
        assert(t.subrange(eq - ta + 1, t.len() as int) =~= cookies@.subrange(eq + 1, tb as int));
        lemma_trim_range(
            t.subrange(eq - ta + 1, t.len() as int),
            va - (eq + 1),
            vb - (eq + 1),
        );
        assert(t.subrange(eq - ta + 1, t.len() as int).subrange(va - (eq + 1), vb - (eq + 1))
            =~= cookies@.subrange(va as int, vb as int));
    }
    let value = cookies.substring_char(va, vb);
    Some(value.to_owned())
}

/// The value of the first cookie named `name` in the `;`-separated cookie
/// header `cookies`: entries are trimmed, split at their first `=`, and
/// key and value trimmed again, exactly as [`find_cookie_spec`] says.
pub fn find_cookie(cookies: &str, name: &str) -> (r: Option<String>)
    ensures
        (r matches Some(v) ==> find_cookie_spec(cookies@, name@) == Some(v@)),
        r is None ==> find_cookie_spec(cookies@, name@) is None,
{
    let len = cookies.unicode_len();
    proof {
        assert(cookies@.subrange(0, cookies@.len() as int) =~= cookies@);
    }
    let mut seg_start: usize = 0;
    loop
        invariant
            seg_start <= len,
            len == cookies@.len(),
            find_cookie_spec(cookies@, name@) == find_cookie_spec(
                cookies@.subrange(seg_start as int, len as int),
                name@,
            ),
        decreases len - seg_start,
    {
        let ghost suffix = cookies@.subrange(seg_start as int, len as int);
        let seg_end = scan_char(cookies, seg_start, len, ';');
        proof {
            assert(forall|k: int| 0 <= k < suffix.len() ==> suffix[k] == cookies@[seg_start + k]);
            lemma_first_index_found(suffix, ';', seg_end - seg_start);
            assert(suffix.subrange(0, seg_end - seg_start) =~= cookies@.subrange(
                seg_start as int,
                seg_end as int,
            ));
        }
        let found = entry_value(cookies, seg_start, seg_end, name);
        if found.is_some() {
            return found;
        }
        if seg_end == len {
            return None;
        }
        proof {
            assert(suffix.subrange(seg_end - seg_start + 1, suffix.len() as int)
                =~= cookies@.subrange(seg_end + 1, len as int));
        }
        seg_start = seg_end + 1;
    }
}

} // verus!
