// Where the application keeps its database: the decisions that do not touch the file system.
use vstd::prelude::*;

use crate::text::{split_on, to_owned_string, trim_white, trim_white_exec};

verus! {

/// The package name used when `/proc/self/cmdline` cannot be read.
pub open spec fn default_package() -> Seq<char> {
    "com.example.myrustlife"@
}

/// The text before the first NUL character (all of it when there is none).
pub open spec fn first_arg(cmdline: Seq<char>) -> Seq<char> {
    split_on(cmdline, '\0')[0]
}

/// The Android package name from the contents of `/proc/self/cmdline` (`None` when it could
/// not be read): its first NUL-separated piece, trimmed.
pub fn package_name(cmdline: Option<&str>) -> (res: String)
    ensures
        match cmdline {
            Some(s) => res@ == trim_white(first_arg(s@)),
            None => res@ == default_package(),
        },
{
    match cmdline {
        None => to_owned_string("com.example.myrustlife"),
        Some(s) => {
            let n: usize = s.unicode_len();
            let mut i: usize = 0;
            while i < n && s.get_char(i) != '\0'
                invariant
                    n == s@.len(),
                    i <= n,
                    forall|j: int| 0 <= j < i ==> s@[j] != '\0',
                decreases n - i,
            {
                i = i + 1;
            }
            proof {
                lemma_first_piece(s@, i as int);
            }
            let first: &str = s.substring_char(0, i);
            to_owned_string(trim_white_exec(first))
        },
    }
}

/// The first piece of a split is the text before the first separator.
proof fn lemma_first_piece(s: Seq<char>, i: int)
    requires
        0 <= i <= s.len(),
        forall|j: int| 0 <= j < i ==> s[j] != '\0',
        i == s.len() || s[i] == '\0',
    ensures
        first_arg(s) == s.subrange(0, i),
    decreases s.len(),
{
    lemma_split_prefix(s, i, s.len() as int);
    assert(s.take(s.len() as int) =~= s);
}

/// Splitting a prefix that reaches past the first separator keeps the same first piece.
proof fn lemma_split_prefix(s: Seq<char>, i: int, k: int)
    requires
        0 <= i <= k <= s.len(),
        forall|j: int| 0 <= j < i ==> s[j] != '\0',
        i == k || s[i] == '\0',
    ensures
        split_on(s.take(k), '\0')[0] == s.subrange(0, i),
        split_on(s.take(k), '\0').len() >= 1,
    decreases k,
{
    crate::text::lemma_split_on_nonempty(s.take(k), '\0');
    if k == 0 {
        assert(s.take(0) =~= Seq::<char>::empty());
        assert(s.subrange(0, 0) =~= Seq::<char>::empty());
    } else if k == i {
        lemma_split_prefix(s, i - 1, k - 1);
        assert(s.take(k).drop_last() =~= s.take(k - 1));
        let rest = split_on(s.take(k - 1), '\0');
        crate::text::lemma_split_on_nonempty(s.take(k - 1), '\0');
        assert(s.take(k).last() == s[k - 1]);
        assert(s[k - 1] != '\0');
        lemma_split_single(s, k - 1);
        assert(rest.len() == 1);
        assert(s.subrange(0, i) =~= s.subrange(0, i - 1).push(s[k - 1]));
    } else {
        lemma_split_prefix(s, i, k - 1);
        assert(s.take(k).drop_last() =~= s.take(k - 1));
        crate::text::lemma_split_on_nonempty(s.take(k - 1), '\0');
        let rest = split_on(s.take(k - 1), '\0');
        if s[k - 1] == '\0' {
            assert(split_on(s.take(k), '\0') == rest.push(Seq::<char>::empty()));
        } else {
            lemma_split_later(s, i, k - 1);
        }
    }
}

/// Before any separator, the split has one piece.
proof fn lemma_split_single(s: Seq<char>, k: int)
    requires
        0 <= k <= s.len(),
        forall|j: int| 0 <= j < k ==> s[j] != '\0',
    ensures
        split_on(s.take(k), '\0').len() == 1,
    decreases k,
{
    if k > 0 {
        lemma_split_single(s, k - 1);
        assert(s.take(k).drop_last() =~= s.take(k - 1));
    }
}

/// After the first separator, the split has at least two pieces.
proof fn lemma_split_later(s: Seq<char>, i: int, k: int)
    requires
        0 <= i < k <= s.len(),
        s[i] == '\0',
    ensures
        split_on(s.take(k), '\0').len() >= 2,
    decreases k,
{
    assert(s.take(k).drop_last() =~= s.take(k - 1));
    crate::text::lemma_split_on_nonempty(s.take(k - 1), '\0');
    if k - 1 > i {
        lemma_split_later(s, i, k - 1);
    }
}

/// The directory of an Android app's private files: `/data/data/<package>/files`.
pub open spec fn android_files_dir_spec(package: Seq<char>) -> Seq<char> {
    "/data/data/"@ + package + "/files"@
}

/// The directory that holds the database file of the Android package `package`.
pub fn android_files_dir(package: &str) -> (res: String)
    ensures
        res@ == android_files_dir_spec(package@),
{
    let mut dir: String = to_owned_string("/data/data/");
    dir.append(package);
    dir.append("/files");
    dir
}

} // verus!
