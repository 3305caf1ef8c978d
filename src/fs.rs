use vstd::prelude::*;
use crate::error::Error;
use crate::text::str_eq;

verus! {

/// The separator between an archive's path and an entry inside it.
pub const CONTAINER_SEP: &'static str = ">";

/// What the file bridge reports of a path.
#[derive(Clone, Copy, Debug, PartialEq, Eq, Structural)]
pub struct Stats {
    pub size: u64,
    pub is_dir: bool,
    pub is_file: bool,
    /// Milliseconds since the Unix epoch; 0 where that does not fit in 64 bits.
    pub modified_time: u64,
}

/// Builds the report of a path from its metadata: its size, its kind, and its
/// modification time in milliseconds since the Unix epoch.
pub fn stats(size: u64, is_file: bool, is_dir: bool, modified_millis: u128) -> (r: Stats)
    ensures
        r.size == size,
        r.is_file == is_file,
        r.is_dir == is_dir,
        r.modified_time == if modified_millis <= u64::MAX as u128 {
            modified_millis as u64
        } else {
            0
        },
{
    let modified_time: u64 = if modified_millis <= u64::MAX as u128 {
        modified_millis as u64
    } else {
        0
    };
    Stats { size, is_dir, is_file, modified_time }
}

/// Whether the file bridge can list an archive of this kind.
pub open spec fn supported_container(container: Seq<char>) -> bool {
    container == "zip"@ || container == "cbz"@
}

/// Accepts the archive kinds that can be listed: `zip` and `cbz`.
pub fn check_container(container: &str) -> (r: Result<(), Error>)
    ensures
        r is Ok <==> supported_container(container@),
        r is Err ==> r->Err_0.message@ == "unsupported container"@,
{
    if str_eq(container, "zip") || str_eq(container, "cbz") {
        Ok(())
    } else {
        Err(Error::new("unsupported container"))
    }
}

/// The index of the first separator in a path, or its length if there is none.
pub open spec fn separator_index(path: Seq<char>) -> int
    decreases path.len(),
{
    if path.len() == 0 {
        0
    } else if path[0] == '>' {
        0
    } else {
        1 + separator_index(path.drop_first())
    }
}

/// The separator index is in range, no earlier character is a separator, and the
/// character there, if any, is one.
proof fn lemma_separator_index(path: Seq<char>)
    ensures
        0 <= separator_index(path) <= path.len(),
        forall|j: int| 0 <= j < separator_index(path) ==> path[j] != '>',
        separator_index(path) < path.len() ==> path[separator_index(path)] == '>',
    decreases path.len(),
{
    if path.len() > 0 && path[0] != '>' {
        lemma_separator_index(path.drop_first());
        assert forall|j: int| 0 <= j < separator_index(path) implies path[j] != '>' by {
            if j > 0 {
                assert(path[j] == path.drop_first()[j - 1]);
            }
        }
    }
}

/// Splits an asset path at its first `>` into the archive's path and the entry inside it.
pub fn split_container_path(path: &str) -> (r: Result<(String, String), Error>)
    ensures
        r is Ok <==> separator_index(path@) < path@.len(),
        r is Ok ==> r->Ok_0.0@ == path@.subrange(0, separator_index(path@))
            && r->Ok_0.1@ == path@.subrange(separator_index(path@) + 1, path@.len() as int),
        r is Err ==> r->Err_0.message@ == "invalid path: "@ + path@,
{
    proof {
        lemma_separator_index(path@);
        reveal_strlit(">");
    }
    let n = path.unicode_len();
    let mut i: usize = 0;
    while i < n
        invariant
            n == path@.len(),
            i <= n,
            forall|j: int| 0 <= j < i ==> path@[j] != '>',
            0 <= separator_index(path@) <= path@.len(),
            forall|j: int| 0 <= j < separator_index(path@) ==> path@[j] != '>',
            separator_index(path@) < path@.len() ==> path@[separator_index(path@)] == '>',
        decreases n - i,
    {
        if path.get_char(i) == '>' {
            assert(separator_index(path@) == i);
            let head = String::from_str(path.substring_char(0, i));
            let tail = String::from_str(path.substring_char(i + 1, n));
            return Ok((head, tail));
        }
        i = i + 1;
    }
    Err(Error::new("invalid path: ").concat_message(path))
}

} // verus!
