//! Path utilities: drive normalization, prefix-safe exclusion matching,
//! Windows-style absolute-path tests, and display-path canonicalization.

use vstd::prelude::*;
use vstd::string::StrSliceExecFns;
use vstd::string::StringExecFns;
use crate::strutil;
use crate::strutil::lower_of;

verus! {

/// A character with the Unicode White_Space property, the forms trimmed
/// at both ends of a path or drive specifier.
pub open spec fn is_space(c: char) -> bool {
    ||| (9 <= c as u32 && c as u32 <= 13)
    ||| c as u32 == 32
    ||| c as u32 == 0x85
    ||| c as u32 == 0xA0
    ||| c as u32 == 0x1680
    ||| (0x2000 <= c as u32 && c as u32 <= 0x200A)
    ||| c as u32 == 0x2028
    ||| c as u32 == 0x2029
    ||| c as u32 == 0x202F
    ||| c as u32 == 0x205F
    ||| c as u32 == 0x3000
}

/// A path separator: backslash or forward slash.
pub open spec fn is_sep(c: char) -> bool {
    c == '\\' || c == '/'
}

/// An ASCII letter.
pub open spec fn is_ascii_letter(c: char) -> bool {
    (97 <= c as u32 && c as u32 <= 122) || (65 <= c as u32 && c as u32 <= 90)
}

/// The upper-case form of an ASCII letter; other characters are unchanged.
pub open spec fn upper_char(c: char) -> char {
    if 97 <= c as u32 && c as u32 <= 122 {
        ((c as u32 - 32) as u8) as char
    } else {
        c
    }
}

pub open spec fn trim_front_spec(s: Seq<char>) -> Seq<char>
    decreases s.len(),
{
    if s.len() > 0 && is_space(s[0]) {
        trim_front_spec(s.drop_first())
    } else {
        s
    }
}

pub open spec fn trim_back_spec(s: Seq<char>) -> Seq<char>
    decreases s.len(),
{
    if s.len() > 0 && is_space(s.last()) {
        trim_back_spec(s.drop_last())
    } else {
        s
    }
}

/// The characters of a string with whitespace removed at both ends.
pub open spec fn trim_spec(s: Seq<char>) -> Seq<char> {
    trim_back_spec(trim_front_spec(s))
}

/// Whether a character has the Unicode White_Space property.
pub fn is_space_char(c: char) -> (r: bool)
    ensures
        r == is_space(c),
{
    let n = c as u32;
    (9 <= n && n <= 13) || n == 32 || n == 0x85 || n == 0xA0 || n == 0x1680 || (0x2000 <= n && n
        <= 0x200A) || n == 0x2028 || n == 0x2029 || n == 0x202F || n == 0x205F || n == 0x3000
}

proof fn lemma_trim_front_skip(s: Seq<char>, i: int)
    requires
        0 <= i <= s.len(),
        forall|j: int| 0 <= j < i ==> is_space(s[j]),
    ensures
        trim_front_spec(s) == trim_front_spec(s.skip(i)),
    decreases i,
{
    if i > 0 {
        assert(s.len() > 0 && is_space(s[0]));
        assert(s.drop_first() =~= s.skip(1));
        assert forall|j: int| 0 <= j < i - 1 implies is_space(s.skip(1)[j]) by {
            assert(s.skip(1)[j] == s[j + 1]);
        }
        lemma_trim_front_skip(s.skip(1), i - 1);
        assert(s.skip(1).skip(i - 1) =~= s.skip(i));
    } else {
        assert(s.skip(0) =~= s);
    }
}

proof fn lemma_trim_back_take(s: Seq<char>, i: int)
    requires
        0 <= i <= s.len(),
        forall|j: int| i <= j < s.len() ==> is_space(s[j]),
    ensures
        trim_back_spec(s) == trim_back_spec(s.take(i)),
    decreases s.len() - i,
{
    if i < s.len() {
        assert(s.len() > 0 && is_space(s.last()));
        assert(s.drop_last() =~= s.take(s.len() - 1));
        lemma_trim_back_take(s.take(s.len() - 1), i);
        assert(s.take(s.len() - 1).take(i) =~= s.take(i));
    } else {
        assert(s.take(i) =~= s);
    }
}

/// The characters of `v` trimmed of whitespace at both ends.
pub fn trim_chars(v: &Vec<char>) -> (t: Vec<char>)
    ensures
        t@ == trim_spec(v@),
{
    let n = v.len();
    let mut start: usize = 0;
    while start < n && is_space_char(v[start])
        invariant
            n == v@.len(),
            start <= n,
            forall|j: int| 0 <= j < start ==> is_space(v@[j]),
        decreases n - start,
    {
        start = start + 1;
    }
    let mut end: usize = n;
    while end > start && is_space_char(v[end - 1])
        invariant
            n == v@.len(),
            start <= end <= n,
            forall|j: int| end <= j < n ==> is_space(v@[j]),
        decreases end,
    {
        end = end - 1;
    }
    let mut t: Vec<char> = Vec::new();
    let mut i: usize = start;
    while i < end
        invariant
            n == v@.len(),
            start <= i <= end <= n,
            t@ == v@.subrange(start as int, i as int),
        decreases end - i,
    {
        t.push(v[i]);
        i = i + 1;
        proof {
            assert(v@.subrange(start as int, i as int) =~= v@.subrange(
                start as int,
                i as int - 1,
            ).push(v@[i as int - 1]));
        }
    }
    proof {
        lemma_trim_front_skip(v@, start as int);
        if end == start {
            // everything from start on is whitespace
            lemma_trim_back_take(v@.skip(start as int), 0);
            assert(v@.skip(start as int).take(0) =~= Seq::<char>::empty());
            assert(trim_spec(v@) =~= t@);
        } else {
            // v[start] and v[end - 1] are not whitespace
            let mid = v@.skip(start as int);
            lemma_trim_back_take(mid, end - start);
            assert(mid.take(end - start) =~= v@.subrange(start as int, end as int));
            let core = v@.subrange(start as int, end as int);
            assert(core.len() > 0 && !is_space(core.last()));
            assert(trim_back_spec(core) == core);
            assert(mid.len() > 0 ==> mid[0] == v@[start as int]);
            assert(trim_front_spec(mid) == mid);
            assert(trim_spec(v@) == trim_back_spec(mid));
            assert(t@ == core);
        }
    }
    t
}

proof fn lemma_trim_front_keeps_nonspace(s: Seq<char>, i: int)
    requires
        0 <= i < s.len(),
        !is_space(s[i]),
        forall|j: int| 0 <= j < i ==> is_space(s[j]),
    ensures
        trim_front_spec(s).len() > 0,
        !is_space(trim_front_spec(s)[0]),
    decreases i,
{
    if i > 0 {
        assert(s.drop_first() =~= s.skip(1));
        assert forall|j: int| 0 <= j < i - 1 implies is_space(s.skip(1)[j]) by {
            assert(s.skip(1)[j] == s[j + 1]);
        }
        assert(s.skip(1)[i - 1] == s[i]);
        lemma_trim_front_keeps_nonspace(s.skip(1), i - 1);
    }
}

proof fn lemma_trim_back_keeps_head(s: Seq<char>)
    requires
        s.len() > 0,
        !is_space(s[0]),
    ensures
        trim_back_spec(s).len() > 0,
    decreases s.len(),
{
    if s.len() > 0 && is_space(s.last()) {
        assert(s.drop_last()[0] == s[0]);
        lemma_trim_back_keeps_head(s.drop_last());
    }
}

proof fn lemma_trimmed_nonempty(s: Seq<char>, i: int)
    requires
        0 <= i < s.len(),
        !is_space(s[i]),
        forall|j: int| 0 <= j < i ==> is_space(s[j]),
    ensures
        trim_spec(s).len() > 0,
{
    lemma_trim_front_keeps_nonspace(s, i);
    lemma_trim_back_keeps_head(trim_front_spec(s));
}

proof fn lemma_all_space_trims_empty(s: Seq<char>)
    requires
        forall|j: int| 0 <= j < s.len() ==> is_space(s[j]),
    ensures
        trim_spec(s).len() == 0,
    decreases s.len(),
{
    if s.len() > 0 {
        assert(is_space(s[0]));
        assert(s.drop_first() =~= s.skip(1));
        assert forall|j: int| 0 <= j < s.skip(1).len() implies is_space(s.skip(1)[j]) by {
            assert(s.skip(1)[j] == s[j + 1]);
        }
        lemma_all_space_trims_empty(s.skip(1));
        assert(trim_front_spec(s) == trim_front_spec(s.skip(1)));
    }
}

/// Whether a string holds nothing besides whitespace.
pub fn is_blank(s: &str) -> (r: bool)
    ensures
        r == (trim_spec(s@).len() == 0),
{
    let v = strutil::chars_vec(s);
    let mut i: usize = 0;
    while i < v.len()
        invariant
            v@ == s@,
            i <= v@.len(),
            forall|j: int| 0 <= j < i ==> is_space(v@[j]),
        decreases v@.len() - i,
    {
        if !is_space_char(v[i]) {
            proof {
                lemma_trimmed_nonempty(v@, i as int);
            }
            return false;
        }
        i = i + 1;
    }
    proof {
        lemma_all_space_trims_empty(v@);
    }
    true
}

/// Forward slashes replaced by backslashes.
pub open spec fn backslashify(s: Seq<char>) -> Seq<char> {
    s.map_values(|c: char| if c == '/' { '\\' } else { c })
}

/// Trailing backslashes removed.
pub open spec fn trim_end_bs(s: Seq<char>) -> Seq<char>
    decreases s.len(),
{
    if s.len() > 0 && s.last() == '\\' {
        trim_end_bs(s.drop_last())
    } else {
        s
    }
}

/// The comparison form of a path for exclusion matching: trimmed,
/// backslash-normalized, right-trimmed of separators, lower-cased.
pub open spec fn norm_prefix_spec(s: Seq<char>) -> Seq<char> {
    lower_of(trim_end_bs(backslashify(trim_spec(s))))
}

proof fn lemma_trim_end_bs_take(s: Seq<char>, i: int)
    requires
        0 <= i <= s.len(),
        forall|j: int| i <= j < s.len() ==> s[j] == '\\',
    ensures
        trim_end_bs(s) == trim_end_bs(s.take(i)),
    decreases s.len() - i,
{
    if i < s.len() {
        assert(s.len() > 0 && s.last() == '\\');
        assert(s.drop_last() =~= s.take(s.len() - 1));
        lemma_trim_end_bs_take(s.take(s.len() - 1), i);
        assert(s.take(s.len() - 1).take(i) =~= s.take(i));
    } else {
        assert(s.take(i) =~= s);
    }
}

/// The comparison form used by exclusion matching.
pub fn normalize_path_for_prefix_compare(value: &str) -> (r: String)
    ensures
        r@ == norm_prefix_spec(value@),
{
    let v = strutil::chars_vec(value);
    let t = trim_chars(&v);
    let mut b: Vec<char> = Vec::new();
    let mut i: usize = 0;
    while i < t.len()
        invariant
            i <= t@.len(),
            b@ =~= backslashify(t@).take(i as int),
        decreases t@.len() - i,
    {
        let c = t[i];
        if c == '/' {
            b.push('\\');
        } else {
            b.push(c);
        }
        i = i + 1;
        proof {
            assert(b@ =~= backslashify(t@).take(i as int));
        }
    }
    proof {
        assert(backslashify(t@).take(t@.len() as int) =~= backslashify(t@));
    }
    let mut end: usize = b.len();
    while end > 0 && b[end - 1] == '\\'
        invariant
            end <= b@.len(),
            forall|j: int| end <= j < b@.len() ==> b@[j] == '\\',
        decreases end,
    {
        end = end - 1;
    }
    proof {
        lemma_trim_end_bs_take(b@, end as int);
    }
    b.truncate(end);
    proof {
        assert(b@ =~= trim_end_bs(backslashify(trim_spec(value@))));
    }
    let s = strutil::string_of_chars(b.as_slice());
    strutil::lowercase(s.as_str())
}

/// Boundary-safe prefix matching on already-normalized path text: the
/// candidate matches iff it equals the exclusion or extends it across a
/// backslash boundary. Empty exclusions never match.
pub open spec fn excl_matches(p: Seq<char>, e: Seq<char>) -> bool {
    &&& e.len() > 0
    &&& (p == e || (p.len() > e.len() && p.take(e.len() as int) == e && p[e.len() as int]
        == '\\'))
}

/// Boundary-safe prefix matching on already-normalized path text.
pub fn prefix_excluded(path_text: &str, excluded_text: &str) -> (r: bool)
    ensures
        r == excl_matches(path_text@, excluded_text@),
{
    let p = strutil::chars_vec(path_text);
    let e = strutil::chars_vec(excluded_text);
    if e.len() == 0 {
        return false;
    }
    if p.len() < e.len() {
        proof {
            assert(!excl_matches(path_text@, excluded_text@));
        }
        return false;
    }
    let mut i: usize = 0;
    while i < e.len()
        invariant
            p@ == path_text@,
            e@ == excluded_text@,
            e@.len() <= p@.len(),
            i <= e@.len(),
            forall|j: int| 0 <= j < i ==> p@[j] == e@[j],
        decreases e@.len() - i,
    {
        if p[i] != e[i] {
            proof {
                assert(p@[i as int] != e@[i as int]);
                assert(p@ != e@);
                assert(p@.take(e@.len() as int)[i as int] == p@[i as int]);
            }
            return false;
        }
        i = i + 1;
    }
    if p.len() == e.len() {
        proof {
            assert(p@ =~= e@);
        }
        true
    } else {
        proof {
            assert(p@.take(e@.len() as int) =~= e@);
            assert(p@ != e@);
        }
        let r = p[e.len()] == '\\';
        r
    }
}

/// Whether a candidate path is excluded by any entry of the exclusion
/// list, after both sides are brought to comparison form.
pub open spec fn path_excluded(p: Seq<char>, excl: Seq<String>) -> bool {
    exists|i: int|
        0 <= i < excl.len() && excl_matches(norm_prefix_spec(p), norm_prefix_spec(excl[i]@))
}

/// Exclusion policy: a path is excluded iff its comparison form equals an
/// entry's comparison form or extends it across a backslash boundary.
pub fn should_exclude(path: &str, excluded: &Vec<String>) -> (r: bool)
    ensures
        r == path_excluded(path@, excluded@),
{
    let path_text = normalize_path_for_prefix_compare(path);
    let mut k: usize = 0;
    while k < excluded.len()
        invariant
            path_text@ == norm_prefix_spec(path@),
            k <= excluded@.len(),
            forall|i: int|
                0 <= i < k ==> !excl_matches(
                    norm_prefix_spec(path@),
                    norm_prefix_spec(excluded@[i]@),
                ),
        decreases excluded@.len() - k,
    {
        let excluded_text = normalize_path_for_prefix_compare(excluded[k].as_str());
        if prefix_excluded(path_text.as_str(), excluded_text.as_str()) {
            return true;
        }
        k = k + 1;
    }
    false
}

/// A path the engines treat as absolute: a drive-rooted form `X:\...` or a
/// double-separator form (UNC and device namespaces).
pub open spec fn win_absolute(s: Seq<char>) -> bool {
    ||| (s.len() >= 3 && is_ascii_letter(s[0]) && s[1] == ':' && is_sep(s[2]))
    ||| (s.len() >= 2 && is_sep(s[0]) && is_sep(s[1]))
}

/// Whether the engines treat `s` as an absolute path.
pub fn is_win_absolute(s: &str) -> (r: bool)
    ensures
        r == win_absolute(s@),
{
    let v = strutil::chars_vec(s);
    if v.len() >= 3 {
        let c0 = v[0];
        let n0 = c0 as u32;
        let drive_form = ((97 <= n0 && n0 <= 122) || (65 <= n0 && n0 <= 90)) && v[1] == ':' && (
        v[2] == '\\' || v[2] == '/');
        if drive_form {
            return true;
        }
    }
    if v.len() >= 2 {
        let s0 = v[0] == '\\' || v[0] == '/';
        let s1 = v[1] == '\\' || v[1] == '/';
        return s0 && s1;
    }
    false
}

/// The characters before the last separator; empty when no separator occurs.
pub open spec fn parent_dir_spec(s: Seq<char>) -> Seq<char>
    decreases s.len(),
{
    if s.len() == 0 {
        Seq::empty()
    } else if is_sep(s.last()) {
        s.drop_last()
    } else {
        parent_dir_spec(s.drop_last())
    }
}

/// The parent directory of a path: everything before its last separator.
pub fn parent_dir(s: &str) -> (r: String)
    ensures
        r@ == parent_dir_spec(s@),
{
    let v = strutil::chars_vec(s);
    let mut end: usize = v.len();
    proof {
        assert(v@.take(end as int) =~= v@);
    }
    while end > 0 && !(v[end - 1] == '\\' || v[end - 1] == '/')
        invariant
            end <= v@.len(),
            parent_dir_spec(v@) == parent_dir_spec(v@.take(end as int)),
        decreases end,
    {
        end = end - 1;
        proof {
            assert(v@.take(end as int + 1).drop_last() =~= v@.take(end as int));
        }
    }
    let mut out: Vec<char> = Vec::new();
    let n = if end > 0 {
        end - 1
    } else {
        0
    };
    let mut i: usize = 0;
    while i < n
        invariant
            n <= v@.len(),
            i <= n,
            out@ =~= v@.take(i as int),
        decreases n - i,
    {
        out.push(v[i]);
        i = i + 1;
    }
    proof {
        if end > 0 {
            assert(is_sep(v@.take(end as int).last()));
            assert(v@.take(end as int).drop_last() =~= v@.take(end as int - 1));
            assert(parent_dir_spec(v@) == v@.take(end as int - 1));
        } else {
            assert(v@.take(0) =~= Seq::<char>::empty());
            assert(parent_dir_spec(v@) == Seq::<char>::empty());
        }
    }
    strutil::string_of_chars(out.as_slice())
}

/// A join that inserts a backslash unless the base already ends in a
/// separator.
pub open spec fn join_spec(base: Seq<char>, rel: Seq<char>) -> Seq<char> {
    if base.len() > 0 && is_sep(base.last()) {
        base + rel
    } else {
        base + seq!['\\'] + rel
    }
}

/// The absolute form of a stored target: the target itself when absolute,
/// else the target joined onto the link's parent directory.
pub open spec fn resolve_target_spec(link_path: Seq<char>, target: Seq<char>) -> Seq<char> {
    if win_absolute(target) {
        target
    } else {
        join_spec(parent_dir_spec(link_path), target)
    }
}

/// Resolves a stored target against the link's location.
pub fn resolve_target(link_path: &str, target: &str) -> (r: String)
    ensures
        r@ == resolve_target_spec(link_path@, target@),
{
    if is_win_absolute(target) {
        let mut s = String::new();
        s.append(target);
        return s;
    }
    let base = parent_dir(link_path);
    let bv = strutil::chars_vec(base.as_str());
    let mut s = String::new();
    s.append(base.as_str());
    let needs_sep = if bv.len() == 0 {
        true
    } else {
        let c = bv[bv.len() - 1];
        !(c == '\\' || c == '/')
    };
    if needs_sep {
        strutil::push_char(&mut s, '\\');
    }
    s.append(target);
    s
}

/// The verbose UNC device prefix `\\?\UNC\`.
pub open spec fn has_unc_prefix(s: Seq<char>) -> bool {
    s.len() >= 8 && s[0] == '\\' && s[1] == '\\' && s[2] == '?' && s[3] == '\\' && s[4] == 'U'
        && s[5] == 'N' && s[6] == 'C' && s[7] == '\\'
}

/// The bare device prefix `\\?\`.
pub open spec fn has_dev_prefix(s: Seq<char>) -> bool {
    s.len() >= 4 && s[0] == '\\' && s[1] == '\\' && s[2] == '?' && s[3] == '\\'
}

/// Display canonicalization: the verbose `\\?\UNC\` prefix collapses to
/// `\\`, and a bare `\\?\` prefix is dropped; all other text is unchanged.
pub open spec fn display_path_spec(s: Seq<char>) -> Seq<char> {
    if has_unc_prefix(s) {
        seq!['\\', '\\'] + s.skip(8)
    } else if has_dev_prefix(s) {
        s.skip(4)
    } else {
        s
    }
}

/// Canonicalizes a path for display.
pub fn normalize_display_path(path: &str) -> (r: String)
    ensures
        r@ == display_path_spec(path@),
{
    let v = strutil::chars_vec(path);
    let unc = v.len() >= 8 && v[0] == '\\' && v[1] == '\\' && v[2] == '?' && v[3] == '\\' && v[4]
        == 'U' && v[5] == 'N' && v[6] == 'C' && v[7] == '\\';
    if unc {
        let mut out: Vec<char> = Vec::new();
        out.push('\\');
        out.push('\\');
        let mut i: usize = 8;
        while i < v.len()
            invariant
                8 <= i <= v@.len(),
                out@ =~= seq!['\\', '\\'] + v@.subrange(8, i as int),
            decreases v@.len() - i,
        {
            out.push(v[i]);
            i = i + 1;
        }
        proof {
            assert(v@.subrange(8, v@.len() as int) =~= v@.skip(8));
            assert(out@ =~= display_path_spec(path@));
        }
        return strutil::string_of_chars(out.as_slice());
    }
    let dev = v.len() >= 4 && v[0] == '\\' && v[1] == '\\' && v[2] == '?' && v[3] == '\\';
    if dev {
        let mut out: Vec<char> = Vec::new();
        let mut i: usize = 4;
        while i < v.len()
            invariant
                4 <= i <= v@.len(),
                out@ =~= v@.subrange(4, i as int),
            decreases v@.len() - i,
        {
            out.push(v[i]);
            i = i + 1;
        }
        proof {
            assert(v@.subrange(4, v@.len() as int) =~= v@.skip(4));
            assert(out@ =~= display_path_spec(path@));
        }
        return strutil::string_of_chars(out.as_slice());
    }
    let mut s = String::new();
    s.append(path);
    s
}

/// Accepts drive specifiers of the forms `X`, `X:`, `X:\`, `X:/` with
/// optional surrounding whitespace: an ASCII letter, then optionally a
/// colon followed by nothing but separators.
pub open spec fn drive_ok(t: Seq<char>) -> bool {
    &&& t.len() >= 1
    &&& is_ascii_letter(t[0])
    &&& (t.len() == 1 || t[1] == ':')
    &&& forall|i: int| 2 <= i < t.len() ==> is_sep(t[i])
}

/// The upper-cased letter of an accepted drive specifier.
pub open spec fn drive_letter_of(t: Seq<char>) -> char {
    upper_char(t[0])
}

proof fn lemma_upper_letter(c: char)
    requires
        is_ascii_letter(c),
    ensures
        is_ascii_letter(upper_char(c)),
        !(97 <= upper_char(c) as u32 <= 122),
{
    if 97 <= c as u32 <= 122 {
        let n = c as u32 - 32;
        assert(65 <= n <= 90);
        assert(((n as u8) as char) as u32 == n);
    }
}

fn exec_upper_char(c: char) -> (r: char)
    ensures
        r == upper_char(c),
{
    let n = c as u32;
    if 97 <= n && n <= 122 {
        ((n - 32) as u8) as char
    } else {
        c
    }
}

/// Parses and validates a drive specifier, yielding its upper-cased letter.
pub fn parse_drive_letter(drive: &str) -> (r: Result<char, String>)
    ensures
        r is Ok <==> drive_ok(trim_spec(drive@)),
        r is Ok ==> r->Ok_0 == drive_letter_of(trim_spec(drive@)),
{
    let v = strutil::chars_vec(drive);
    let t = trim_chars(&v);
    if t.len() == 0 {
        return Err(String::from_str("Drive is empty. Expected format like C:"));
    }
    let letter = t[0];
    let ln = letter as u32;
    if !((97 <= ln && ln <= 122) || (65 <= ln && ln <= 90)) {
        let mut m = String::from_str("Invalid drive letter in path: ");
        m.append(drive);
        return Err(m);
    }
    if t.len() == 1 {
        return Ok(exec_upper_char(letter));
    }
    if t[1] != ':' {
        let mut m = String::from_str("Invalid drive format: ");
        m.append(drive);
        m.append(". Expected format like C:");
        return Err(m);
    }
    let mut i: usize = 2;
    while i < t.len()
        invariant
            t@ == trim_spec(drive@),
            2 <= i <= t@.len(),
            forall|j: int| 2 <= j < i ==> is_sep(t@[j]),
        decreases t@.len() - i,
    {
        let c = t[i];
        if !(c == '\\' || c == '/') {
            proof {
                assert(2 <= i < t@.len() && !is_sep(t@[i as int]));
            }
            let mut m = String::from_str("Invalid drive format: ");
            m.append(drive);
            m.append(". Expected format like C:");
            return Err(m);
        }
        i = i + 1;
    }
    Ok(exec_upper_char(letter))
}

/// The normal form of an accepted drive: upper-case letter, colon, backslash.
pub open spec fn normalized_drive_of(t: Seq<char>) -> Seq<char> {
    seq![drive_letter_of(t), ':', '\\']
}

/// Normalizes a drive specifier to the form `X:\`.
///
/// Every accepted drive yields a three-character string: one upper-case
/// ASCII letter, a colon, and a single trailing backslash.
pub fn normalize_drive(drive: &str) -> (r: Result<String, String>)
    ensures
        r is Ok <==> drive_ok(trim_spec(drive@)),
        r is Ok ==> r->Ok_0@ == normalized_drive_of(trim_spec(drive@)),
        r is Ok ==> {
            &&& r->Ok_0@.len() == 3
            &&& is_ascii_letter(r->Ok_0@[0])
            &&& !(97 <= r->Ok_0@[0] as u32 <= 122)
            &&& r->Ok_0@[1] == ':'
            &&& r->Ok_0@[2] == '\\'
        },
{
    match parse_drive_letter(drive) {
        Ok(letter) => {
            let mut s = String::new();
            strutil::push_char(&mut s, letter);
            strutil::push_char(&mut s, ':');
            strutil::push_char(&mut s, '\\');
            proof {
                let t = trim_spec(drive@);
                assert(s@ =~= normalized_drive_of(t));
                lemma_upper_letter(t[0]);
            }
            Ok(s)
        }
        Err(e) => Err(e),
    }
}

} // verus!
