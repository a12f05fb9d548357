//! Revisions of thumbnail sources.
use vstd::prelude::*;
use vstd::string::StringExecFns;

use crate::text::{
    append_decimal, append_signed, decimal_int, lemma_decimal_int_chars,
    lemma_decimal_int_injective,
};

verus! {

/// What the file system says of a file.
#[derive(Clone, Copy, Debug, PartialEq, Eq, Structural)]
pub struct FileMetadata {
    pub is_file: bool,
    pub device: u64,
    pub inode: u64,
    pub size: u64,
    pub modified: i64,
    pub modified_ns: i64,
    pub changed: i64,
    pub changed_ns: i64,
}

/// Identifies the contents of a file at one moment.
#[derive(Clone, Copy, Debug, PartialEq, Eq, Structural, Hash)]
pub struct SourceRevision {
    pub device: u64,
    pub inode: u64,
    pub size: u64,
    pub modified: i64,
    pub modified_ns: i64,
    pub changed: i64,
    pub changed_ns: i64,
}

/// The revision that a file's metadata gives.
pub open spec fn revision_of(metadata: FileMetadata) -> SourceRevision {
    SourceRevision {
        device: metadata.device,
        inode: metadata.inode,
        size: metadata.size,
        modified: metadata.modified,
        modified_ns: metadata.modified_ns,
        changed: metadata.changed,
        changed_ns: metadata.changed_ns,
    }
}

/// Integers in decimal, separated by colons.
pub open spec fn colon_separated(values: Seq<int>) -> Seq<char>
    decreases values.len(),
{
    if values.len() == 0 {
        Seq::empty()
    } else if values.len() == 1 {
        decimal_int(values[0])
    } else {
        colon_separated(values.drop_last()) + seq![':'] + decimal_int(values.last())
    }
}

impl SourceRevision {
    /// The numbers that make up a revision.
    pub open spec fn fields(self) -> Seq<int> {
        seq![
            self.device as int,
            self.inode as int,
            self.size as int,
            self.modified as int,
            self.modified_ns as int,
            self.changed as int,
            self.changed_ns as int,
        ]
    }

    /// The revision of a file whose metadata could be read, or the error that stood in
    /// the way.
    pub fn read(metadata: Result<FileMetadata, String>) -> (revision: Result<Self, String>)
        ensures
            match metadata {
                Err(error) => revision == Result::<Self, String>::Err(error),
                Ok(found) => if found.is_file {
                    revision == Result::<Self, String>::Ok(revision_of(found))
                } else {
                    revision matches Err(error) && error@
                        == "Thumbnail input is not a regular file"@
                },
            },
    {
        match metadata {
            Err(error) => Err(error),
            Ok(found) => Self::from_metadata(&found),
        }
    }

    /// The revision of a regular file; anything else has none.
    pub fn from_metadata(metadata: &FileMetadata) -> (revision: Result<Self, String>)
        ensures
            revision matches Ok(found) ==> metadata.is_file && found == revision_of(*metadata),
            revision matches Err(error) ==> !metadata.is_file && error@
                == "Thumbnail input is not a regular file"@,
    {
        if !metadata.is_file {
            return Err("Thumbnail input is not a regular file".to_owned());
        }
        Ok(
            SourceRevision {
                device: metadata.device,
                inode: metadata.inode,
                size: metadata.size,
                modified: metadata.modified,
                modified_ns: metadata.modified_ns,
                changed: metadata.changed,
                changed_ns: metadata.changed_ns,
            },
        )
    }

    /// A text that stands for this revision in a cache.
    pub fn cache_stamp(self) -> (stamp: String)
        ensures
            stamp@ == colon_separated(self.fields()),
    {
        let mut stamp = String::new();
        append_decimal(&mut stamp, self.device);
        let ghost fields = self.fields();
        assert(stamp@ =~= colon_separated(fields.take(1)));
        append_colon(&mut stamp);
        append_decimal(&mut stamp, self.inode);
        proof {
            lemma_next_field(fields, 1);
        }
        append_colon(&mut stamp);
        append_decimal(&mut stamp, self.size);
        proof {
            lemma_next_field(fields, 2);
        }
        append_colon(&mut stamp);
        append_signed(&mut stamp, self.modified);
        proof {
            lemma_next_field(fields, 3);
        }
        append_colon(&mut stamp);
        append_signed(&mut stamp, self.modified_ns);
        proof {
            lemma_next_field(fields, 4);
        }
        append_colon(&mut stamp);
        append_signed(&mut stamp, self.changed);
        proof {
            lemma_next_field(fields, 5);
        }
        append_colon(&mut stamp);
        append_signed(&mut stamp, self.changed_ns);
        proof {
            lemma_next_field(fields, 6);
            assert(fields.take(7) =~= fields);
        }
        stamp
    }

    /// Whether a file still has this revision, given its revision now; one that cannot be
    /// read does not.
    pub fn matches(self, current: Result<SourceRevision, String>) -> (same: bool)
        ensures
            same == (current matches Ok(found) && found == self),
    {
        match current {
            Ok(found) => found == self,
            Err(_) => false,
        }
    }
}

fn append_colon(out: &mut String)
    ensures
        final(out)@ == old(out)@ + seq![':'],
{
    proof {
        reveal_strlit(":");
        assert(":"@ =~= seq![':']);
    }
    out.append(":");
}

proof fn lemma_next_field(values: Seq<int>, taken: int)
    requires
        1 <= taken < values.len(),
    ensures
        colon_separated(values.take(taken + 1)) == colon_separated(values.take(taken)) + seq![':']
            + decimal_int(values[taken]),
{
    assert(values.take(taken + 1).drop_last() =~= values.take(taken));
}

proof fn lemma_split_at_last_colon(
    rest_a: Seq<char>,
    a: Seq<char>,
    rest_b: Seq<char>,
    b: Seq<char>,
)
    requires
        !a.contains(':'),
        !b.contains(':'),
        rest_a + seq![':'] + a == rest_b + seq![':'] + b,
    ensures
        a == b,
        rest_a == rest_b,
{
    let left = rest_a + seq![':'] + a;
    let right = rest_b + seq![':'] + b;
    assert(left.len() == rest_a.len() + 1 + a.len());
    assert(right.len() == rest_b.len() + 1 + b.len());
    assert(left[rest_a.len() as int] == ':');
    assert(right[rest_b.len() as int] == ':');
    if rest_a.len() > rest_b.len() {
        let at = rest_a.len() - rest_b.len() - 1;
        assert(right[rest_a.len() as int] == b[at]);
        assert(false);
    }
    if rest_b.len() > rest_a.len() {
        let at = rest_b.len() - rest_a.len() - 1;
        assert(left[rest_b.len() as int] == a[at]);
        assert(false);
    }
    assert(rest_a =~= left.take(rest_a.len() as int));
    assert(rest_b =~= right.take(rest_b.len() as int));
    assert(a =~= left.skip(rest_a.len() as int + 1));
    assert(b =~= right.skip(rest_b.len() as int + 1));
}

proof fn lemma_colon_separated_injective(left: Seq<int>, right: Seq<int>)
    requires
        left.len() == right.len(),
        colon_separated(left) == colon_separated(right),
    ensures
        left == right,
    decreases left.len(),
{
    if left.len() == 0 {
        assert(left =~= right);
    } else if left.len() == 1 {
        lemma_decimal_int_injective(left[0], right[0]);
        assert(left =~= right);
    } else {
        lemma_decimal_int_chars(left.last(), ':');
        lemma_decimal_int_chars(right.last(), ':');
        lemma_split_at_last_colon(
            colon_separated(left.drop_last()),
            decimal_int(left.last()),
            colon_separated(right.drop_last()),
            decimal_int(right.last()),
        );
        lemma_decimal_int_injective(left.last(), right.last());
        lemma_colon_separated_injective(left.drop_last(), right.drop_last());
        assert(left =~= left.drop_last().push(left.last()));
        assert(right =~= right.drop_last().push(right.last()));
    }
}

/// Two revisions with the same stamp are the same revision.
pub proof fn cache_stamp_identifies_revision(left: SourceRevision, right: SourceRevision)
    requires
        colon_separated(left.fields()) == colon_separated(right.fields()),
    ensures
        left == right,
{
    lemma_colon_separated_injective(left.fields(), right.fields());
    assert(left.fields()[0] == right.fields()[0]);
    assert(left.fields()[1] == right.fields()[1]);
    assert(left.fields()[2] == right.fields()[2]);
    assert(left.fields()[3] == right.fields()[3]);
    assert(left.fields()[4] == right.fields()[4]);
    assert(left.fields()[5] == right.fields()[5]);
    assert(left.fields()[6] == right.fields()[6]);
}

/// A revision is made of the device, the file, the size and both times to the nanosecond, so that
/// files that differ in any of these have different revisions.
pub proof fn revisions_tell_files_apart(left: FileMetadata, right: FileMetadata)
    ensures
        revision_of(left) == revision_of(right) <==> left.device == right.device && left.inode
            == right.inode && left.size == right.size && left.modified == right.modified
            && left.modified_ns == right.modified_ns && left.changed == right.changed
            && left.changed_ns == right.changed_ns,
        revision_of(left).device == left.device && revision_of(left).inode == left.inode
            && revision_of(left).size == left.size && revision_of(left).modified == left.modified
            && revision_of(left).modified_ns == left.modified_ns && revision_of(left).changed
            == left.changed && revision_of(left).changed_ns == left.changed_ns,
{
}

/// A stamp lists the parts of a revision in order, separated by colons.
pub proof fn stamps_list_every_part(revision: SourceRevision)
    ensures
        colon_separated(revision.fields()) == decimal_int(revision.device as int) + seq![':']
            + decimal_int(revision.inode as int) + seq![':'] + decimal_int(revision.size as int)
            + seq![':'] + decimal_int(revision.modified as int) + seq![':'] + decimal_int(
            revision.modified_ns as int,
        ) + seq![':'] + decimal_int(revision.changed as int) + seq![':'] + decimal_int(
            revision.changed_ns as int,
        ),
{
    let all = revision.fields();
    reveal_with_fuel(colon_separated, 8);
    assert(all.drop_last() =~= all.take(6));
    assert(all.take(6).drop_last() =~= all.take(5));
    assert(all.take(5).drop_last() =~= all.take(4));
    assert(all.take(4).drop_last() =~= all.take(3));
    assert(all.take(3).drop_last() =~= all.take(2));
    assert(all.take(2).drop_last() =~= all.take(1));
}

} // verus!
