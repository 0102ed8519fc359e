//! Composing a validated name with the trusted base directory and extension,
//! and the resulting path value with its invariant.

use vstd::prelude::*;
use vstd::string::StrSliceExecFns;
use vstd::string::StringExecFns;
use crate::rules::has_separator;
use crate::rules::is_separator_char;
use crate::rules::valid_name;

verus! {

/// An extension with every leading `.` removed, so that `"txt"` and
/// `".txt"` mean the same extension.
pub open spec fn strip_dots(e: Seq<char>) -> Seq<char>
    decreases e.len(),
{
    if e.len() > 0 && e[0] == '.' {
        strip_dots(e.drop_first())
    } else {
        e
    }
}

/// The path built from a base directory, a name and an extension: the base,
/// one `/` (unless the base already ends in one), the name, one `.`, and
/// the extension stripped of leading dots.
pub open spec fn composed_path(base: Seq<char>, name: Seq<char>, ext: Seq<char>) -> Seq<char> {
    let dir = if base.len() > 0 && base[base.len() - 1] == '/' {
        base
    } else {
        base + seq!['/']
    };
    dir + name + seq!['.'] + strip_dots(ext)
}

/// The index of the last `/` of a path, or -1 when it has none.
pub open spec fn last_sep_index(p: Seq<char>) -> int
    decreases p.len(),
{
    if p.len() == 0 {
        -1
    } else if p[p.len() - 1] == '/' {
        p.len() - 1
    } else {
        last_sep_index(p.drop_last())
    }
}

/// Everything before the last `/` of a path: its parent directory.
pub open spec fn parent_of(p: Seq<char>) -> Seq<char> {
    if last_sep_index(p) >= 0 {
        p.take(last_sep_index(p))
    } else {
        Seq::empty()
    }
}

/// A path composed from a trusted base directory, a name that passed every
/// validation check, and a trusted extension. Its invariant ties the
/// character sequence to those three parts, so the name segment can never
/// hold a separator, a `..`, or a control character.
pub struct SanitizedPath {
    path: String,
    base: Ghost<Seq<char>>,
    name: Ghost<Seq<char>>,
    ext: Ghost<Seq<char>>,
}

impl View for SanitizedPath {
    type V = Seq<char>;

    closed spec fn view(&self) -> Seq<char> {
        self.path@
    }
}

impl SanitizedPath {
    /// The base directory this path was composed under.
    pub closed spec fn base_seq(&self) -> Seq<char> {
        self.base@
    }

    /// The validated name segment of this path.
    pub closed spec fn name_seq(&self) -> Seq<char> {
        self.name@
    }

    /// The extension this path was given, as the caller passed it.
    pub closed spec fn ext_seq(&self) -> Seq<char> {
        self.ext@
    }

    /// The invariant: the path is exactly the base directory joined with a
    /// valid name and the dot-stripped extension.
    pub open spec fn wf(&self) -> bool {
        &&& self.base_seq().len() > 0
        &&& valid_name(self.name_seq())
        &&& self@ == composed_path(self.base_seq(), self.name_seq(), self.ext_seq())
    }

    /// The composed path as a string slice.
    pub fn as_str(&self) -> (r: &str)
        ensures
            r@ == self@,
    {
        self.path.as_str()
    }

    /// The composed path as an owned string.
    pub fn into_string(self) -> (r: String)
        ensures
            r@ == self@,
    {
        self.path
    }
}

/// Stripping leading dots keeps an extension free of separators.
proof fn lemma_strip_dots_no_sep(e: Seq<char>)
    requires
        !has_separator(e),
    ensures
        !has_separator(strip_dots(e)),
    decreases e.len(),
{
    if e.len() > 0 && e[0] == '.' {
        assert(!has_separator(e.drop_first())) by {
            if has_separator(e.drop_first()) {
                let i = choose|i: int|
                    0 <= i < e.drop_first().len() && is_separator_char(#[trigger] e.drop_first()[i]);
                assert(e[i + 1] == e.drop_first()[i]);
                assert(has_separator(e));
            }
        }
        lemma_strip_dots_no_sep(e.drop_first());
    }
}

/// A `/` at position `k` with none after it is the last one.
proof fn lemma_last_sep_at(p: Seq<char>, k: int)
    requires
        0 <= k < p.len(),
        p[k] == '/',
        forall|j: int| k < j < p.len() ==> (#[trigger] p[j]) != '/',
    ensures
        last_sep_index(p) == k,
    decreases p.len(),
{
    if k == p.len() - 1 {
    } else {
        assert(p[p.len() - 1] != '/');
        assert(forall|j: int| k < j < p.drop_last().len() ==> (#[trigger] p.drop_last()[j]) == p[j]);
        lemma_last_sep_at(p.drop_last(), k);
    }
}

/// The composed path lies directly inside the base directory: for a valid
/// name and an extension free of separators, its parent is exactly the base
/// (stated for a base that does not itself end in a separator).
pub proof fn lemma_composed_parent(base: Seq<char>, name: Seq<char>, ext: Seq<char>)
    requires
        base.len() > 0,
        base[base.len() - 1] != '/',
        valid_name(name),
        !has_separator(ext),
    ensures
        parent_of(composed_path(base, name, ext)) == base,
{
    let p = composed_path(base, name, ext);
    let se = strip_dots(ext);
    let k = base.len() as int;
    lemma_strip_dots_no_sep(ext);
    assert(p[k] == '/');
    assert forall|j: int| k < j < p.len() implies (#[trigger] p[j]) != '/' by {
        let nlen = name.len() as int;
        if j < k + 1 + nlen {
            assert(p[j] == name[j - k - 1]);
            assert(!is_separator_char(name[j - k - 1]));
        } else if j == k + 1 + nlen {
            assert(p[j] == '.');
        } else {
            assert(p[j] == se[j - k - 2 - nlen]);
            assert(!is_separator_char(se[j - k - 2 - nlen]));
        }
    }
    lemma_last_sep_at(p, k);
    assert(p.take(k) =~= base);
}

/// A leading dot on the extension makes no difference: composing with
/// `.txt` gives the same path as composing with `txt`.
pub proof fn lemma_leading_dot_irrelevant(base: Seq<char>, name: Seq<char>, ext: Seq<char>)
    ensures
        composed_path(base, name, seq!['.'] + ext) == composed_path(base, name, ext),
{
    let dotted = seq!['.'] + ext;
    assert(dotted[0] == '.');
    assert(dotted.drop_first() =~= ext);
}

/// Remove every leading `.` from an extension.
pub fn strip_leading_dots(extension: &str) -> (r: &str)
    ensures
        r@ == strip_dots(extension@),
{
    let n = extension.unicode_len();
    let mut i: usize = 0;
    proof {
        assert(extension@.skip(0) =~= extension@);
    }
    while i < n && extension.get_char(i) == '.'
        invariant
            n == extension@.len(),
            i <= n,
            strip_dots(extension@) == strip_dots(extension@.skip(i as int)),
        decreases n - i,
    {
        proof {
            assert(extension@.skip(i as int)[0] == extension@[i as int]);
            assert(extension@.skip(i as int).drop_first() =~= extension@.skip(i as int + 1));
        }
        i += 1;
    }
    let r = extension.substring_char(i, n);
    proof {
        assert(extension@.subrange(i as int, n as int) =~= extension@.skip(i as int));
        if i < n {
            assert(extension@.skip(i as int)[0] == extension@[i as int]);
        }
        assert(strip_dots(extension@.skip(i as int)) == extension@.skip(i as int));
    }
    r
}

/// Join a trusted base directory, a name that passed every validation
/// check, and a trusted extension into the final path.
pub fn compose(base_path: &str, name: &str, extension: &str) -> (p: SanitizedPath)
    requires
        base_path@.len() > 0,
        valid_name(name@),
    ensures
        p.wf(),
        p.base_seq() == base_path@,
        p.name_seq() == name@,
        p.ext_seq() == extension@,
        p@ == composed_path(base_path@, name@, extension@),
{
    let blen = base_path.unicode_len();
    let last = base_path.get_char(blen - 1);
    let mut s = base_path.to_owned();
    if last != '/' {
        s.append("/");
    }
    s.append(name);
    s.append(".");
    let stripped = strip_leading_dots(extension);
    s.append(stripped);
    proof {
        reveal_strlit("/");
        reveal_strlit(".");
        assert(s@ =~= composed_path(base_path@, name@, extension@));
    }
    SanitizedPath {
        path: s,
        base: Ghost(base_path@),
        name: Ghost(name@),
        ext: Ghost(extension@),
    }
}

} // verus!
