//! Unpack rules and their registry: a filename is handled by a rule when the
//! rule's extension is a proper suffix of it, and the registry returns the
//! first rule, in stored order, that handles the name.

use vstd::prelude::*;

verus! {

/// One extension-to-invocation rule: filenames ending in `extension` are
/// unpacked by running the program `invocation[0]` with the fixed arguments
/// `invocation[1..]`, followed by the archive path.
#[derive(Debug, PartialEq, Eq)]
pub struct UnpackFormat {
    pub extension: String,
    pub invocation: Vec<String>,
}

/// The mathematical image of an [`UnpackFormat`]: both fields as character
/// sequences.
pub struct FormatModel {
    pub extension: Seq<char>,
    pub invocation: Seq<Seq<char>>,
}

/// Whether a rule's filename-match predicate holds: the name is strictly
/// longer than the extension and ends with it exactly (case-sensitive, no
/// normalization).  A name equal to the bare extension does not match.
pub open spec fn handles_spec(fmt: UnpackFormat, name: Seq<char>) -> bool {
    &&& fmt.extension@.len() < name.len()
    &&& name.subrange(name.len() - fmt.extension@.len(), name.len() as int) == fmt.extension@
}

/// The position of the first rule whose predicate holds for `name`, if any.
pub open spec fn find_index(formats: Seq<UnpackFormat>, name: Seq<char>) -> Option<int>
    decreases formats.len(),
{
    if formats.len() == 0 {
        None
    } else if handles_spec(formats[0], name) {
        Some(0)
    } else {
        match find_index(formats.drop_first(), name) {
            Some(i) => Some(i + 1),
            None => None,
        }
    }
}

/// A registry's structural invariant: every rule has a non-empty extension
/// and a non-empty invocation.
pub open spec fn wf_format(fmt: UnpackFormat) -> bool {
    &&& fmt.extension@.len() > 0
    &&& fmt.invocation@.len() > 0
}

impl UnpackFormat {
    /// The model of this rule.
    pub open spec fn model(self) -> FormatModel {
        FormatModel { extension: self.extension@, invocation: self.invocation.deep_view() }
    }

    /// Whether this rule handles `file_name`: the extension is a proper
    /// suffix of the name.
    pub fn handles(&self, file_name: &str) -> (r: bool)
        ensures
            r == handles_spec(*self, file_name@),
    {
        let ext_len = self.extension.as_str().unicode_len();
        let name_len = file_name.unicode_len();
        if ext_len >= name_len {
            return false;
        }
        let off = name_len - ext_len;
        let mut i: usize = 0;
        while i < ext_len
            invariant
                ext_len < name_len == file_name@.len(),
                ext_len == self.extension@.len(),
                off == name_len - ext_len,
                0 <= i <= ext_len,
                forall|k: int| 0 <= k < i ==> file_name@[off + k] == self.extension@[k],
            decreases ext_len - i,
        {
            if file_name.get_char(off + i) != self.extension.as_str().get_char(i) {
                proof {
                    let suffix = file_name@.subrange(
                        name_len - ext_len,
                        name_len as int,
                    );
                    assert(suffix[i as int] == file_name@[off + i]);
                }
                return false;
            }
            i = i + 1;
        }
        proof {
            assert(file_name@.subrange(name_len - ext_len, name_len as int)
                =~= self.extension@);
        }
        true
    }

    /// The first rule in `formats`, in stored order, that handles
    /// `file_name`, or `None` when no rule does.
    pub fn find<'a>(formats: &'a Vec<UnpackFormat>, file_name: &str) -> (r: Option<
        &'a UnpackFormat,
    >)
        ensures
            match r {
                Some(f) => {
                    &&& find_index(formats@, file_name@) is Some
                    &&& 0 <= find_index(formats@, file_name@)->0 < formats@.len()
                    &&& *f == formats@[find_index(formats@, file_name@)->0]
                },
                None => find_index(formats@, file_name@) is None,
            },
    {
        let ghost name = file_name@;
        let n = formats.len();
        let mut j: usize = 0;
        while j < n
            invariant
                n == formats@.len(),
                0 <= j <= n,
                forall|k: int| 0 <= k < j ==> !handles_spec(formats@[k], name),
                name == file_name@,
            decreases n - j,
        {
            if formats[j].handles(file_name) {
                proof {
                    lemma_find_index_first_match(formats@, name);
                    let i = find_index(formats@, name)->0;
                    assert(!(i < j) && !(j < i));
                }
                return Some(&formats[j]);
            }
            j = j + 1;
        }
        proof {
            lemma_find_index_first_match(formats@, name);
            if find_index(formats@, name) is Some {
                let i = find_index(formats@, name)->0;
                assert(!handles_spec(formats@[i], name));
            }
        }
        None
    }
}

/// The registry returns the first match in stored order: a found position
/// holds a rule whose predicate holds, every earlier rule's predicate fails,
/// and when no position is found no rule's predicate holds.
pub proof fn lemma_find_index_first_match(formats: Seq<UnpackFormat>, name: Seq<char>)
    ensures
        match find_index(formats, name) {
            Some(i) => {
                &&& 0 <= i < formats.len()
                &&& handles_spec(formats[i], name)
                &&& forall|j: int| 0 <= j < i ==> !handles_spec(formats[j], name)
            },
            None => forall|j: int| 0 <= j < formats.len() ==> !handles_spec(formats[j], name),
        },
    decreases formats.len(),
{
    if formats.len() > 0 && !handles_spec(formats[0], name) {
        let rest = formats.drop_first();
        lemma_find_index_first_match(rest, name);
        assert(forall|j: int| 0 <= j < rest.len() ==> rest[j] == formats[j + 1]);
        match find_index(rest, name) {
            Some(i) => {
                assert(find_index(formats, name) == Some(i + 1));
                assert(handles_spec(formats[i + 1], name));
                assert forall|j: int| 0 <= j < i + 1 implies !handles_spec(
                    formats[j],
                    name,
                ) by {
                    if j > 0 {
                        assert(formats[j] == rest[j - 1]);
                    }
                }
            },
            None => {
                assert forall|j: int| 0 <= j < formats.len() implies !handles_spec(
                    formats[j],
                    name,
                ) by {
                    if j > 0 {
                        assert(formats[j] == rest[j - 1]);
                    }
                }
            },
        }
    }
}

/// Whether the registry is ordered longest extension first, the order the
/// configuration loader establishes.
pub open spec fn sorted_by_extension_desc(formats: Seq<UnpackFormat>) -> bool {
    forall|i: int, j: int|
        0 <= i < j < formats.len() ==> formats[i].extension@.len() >= formats[j].extension@.len()
}

/// Longest-first ordering resolves ambiguity: in a registry sorted longest
/// extension first, the rule the registry returns has an extension at least
/// as long as that of every rule whose predicate holds for the name.  In
/// particular a name ending in `.tar.gz` is never resolved to a `.gz` rule
/// when a `.tar.gz` rule is registered.
pub proof fn lemma_sorted_longest_match(formats: Seq<UnpackFormat>, name: Seq<char>)
    requires
        sorted_by_extension_desc(formats),
        find_index(formats, name) is Some,
    ensures
        forall|j: int|
            0 <= j < formats.len() && handles_spec(formats[j], name)
                ==> formats[j].extension@.len()
                <= formats[find_index(formats, name)->0].extension@.len(),
{
    lemma_find_index_first_match(formats, name);
}

} // verus!
