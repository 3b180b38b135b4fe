//! Which files of an APK hold binary XML documents.

use vstd::prelude::*;
use vstd::string::StrSliceExecFns;

verus! {

/// Whether `s` begins with `p`.
pub open spec fn has_prefix(s: Seq<char>, p: Seq<char>) -> bool {
    p.len() <= s.len() && s.subrange(0, p.len() as int) == p
}

/// Whether `s` ends with `p`.
pub open spec fn has_suffix(s: Seq<char>, p: Seq<char>) -> bool {
    p.len() <= s.len() && s.subrange(s.len() - p.len(), s.len() as int) == p
}

/// Whether the file of an APK at `path` is a binary XML document: the manifest, or an
/// XML file under `res/`.
pub open spec fn binary_xml_path(path: Seq<char>) -> bool {
    (has_prefix(path, "res/"@) && has_suffix(path, ".xml"@)) || path == "AndroidManifest.xml"@
}

/// Whether the characters of `s` from `start` on begin with those of `p`.
fn matches_at(s: &str, start: usize, p: &str) -> (r: bool)
    requires
        start + p@.len() <= s@.len(),
    ensures
        r == (s@.subrange(start as int, start + p@.len()) == p@),
{
    let n = s.unicode_len();
    let m = p.unicode_len();
    let mut i: usize = 0;
    while i < m
        invariant
            n == s@.len(),
            m == p@.len(),
            start + m <= s@.len(),
            i <= m,
            forall|k: int| 0 <= k < i ==> s@[start + k] == p@[k],
        decreases m - i,
    {
        if s.get_char(start + i) != p.get_char(i) {
            assert(s@.subrange(start as int, start + m)[i as int] != p@[i as int]);
            return false;
        }
        i = i + 1;
    }
    assert(s@.subrange(start as int, start + m) =~= p@);
    true
}

fn starts_with(s: &str, p: &str) -> (r: bool)
    ensures
        r == has_prefix(s@, p@),
{
    if p.unicode_len() > s.unicode_len() {
        return false;
    }
    matches_at(s, 0, p)
}

fn ends_with(s: &str, p: &str) -> (r: bool)
    ensures
        r == has_suffix(s@, p@),
{
    let n = s.unicode_len();
    let m = p.unicode_len();
    if m > n {
        return false;
    }
    matches_at(s, n - m, p)
}

fn same_text(s: &str, p: &str) -> (r: bool)
    ensures
        r == (s@ == p@),
{
    if s.unicode_len() != p.unicode_len() {
        return false;
    }
    let r = matches_at(s, 0, p);
    assert(s@.subrange(0, s@.len() as int) =~= s@);
    r
}

/// Whether the file of an APK at `path` is a binary XML document, to be decoded when the
/// APK is exported.
pub fn is_binary_xml(path: &str) -> (r: bool)
    ensures
        r == binary_xml_path(path@),
{
    proof {
        reveal_strlit("res/");
        reveal_strlit(".xml");
        reveal_strlit("AndroidManifest.xml");
    }
    (starts_with(path, "res/") && ends_with(path, ".xml")) || same_text(path, "AndroidManifest.xml")
}

/// Every file under `res/` whose name ends in `.xml` is a binary XML document, whatever
/// the directories and name in between, and so is the manifest.
pub proof fn lemma_res_xml_files_are_binary(middle: Seq<char>)
    ensures
        binary_xml_path("res/"@ + middle + ".xml"@),
        binary_xml_path("AndroidManifest.xml"@),
{
    reveal_strlit("res/");
    reveal_strlit(".xml");
    let path = "res/"@ + middle + ".xml"@;
    assert(path.subrange(0, 4) =~= "res/"@);
    assert(path.subrange(path.len() - 4, path.len() as int) =~= ".xml"@);
}

/// A binary XML document is the manifest or a file under `res/` whose name ends in
/// `.xml`: nothing else is.
pub proof fn lemma_binary_files_are_res_xml(path: Seq<char>)
    requires
        binary_xml_path(path),
    ensures
        path == "AndroidManifest.xml"@ || exists|middle: Seq<char>|
            path == "res/"@ + middle + ".xml"@,
{
    reveal_strlit("res/");
    reveal_strlit(".xml");
    reveal_strlit("AndroidManifest.xml");
    if path != "AndroidManifest.xml"@ {
        assert(path.subrange(0, 4) == "res/"@);
        assert(path.subrange(path.len() - 4, path.len() as int) == ".xml"@);
        if path.len() < 8 {
            let head = path.subrange(0, 4);
            let tail = path.subrange(path.len() - 4, path.len() as int);
            assert(head[3] == path[3]);
            assert("res/"@[3] == '/');
            let i = 7 - path.len();
            assert(tail[i] == path[3]);
            assert(".xml"@[0] == '.' && ".xml"@[1] == 'x' && ".xml"@[2] == 'm' && ".xml"@[3]
                == 'l');
            assert(false);
        }
        let middle = path.subrange(4, path.len() - 4);
        assert(path =~= "res/"@ + middle + ".xml"@);
    }
}

} // verus!
