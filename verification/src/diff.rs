use vstd::prelude::*;
use vstd::string::*;
use vstd::utf8::*;
use crate::oid::ObjectId;
use crate::text::{from_utf8, push_char};

verus! {

/// One line of a tree-to-tree patch as the differ emits it: the file it
/// belongs to, named by the id of the file's new content, the marker in
/// front of the line, and the bytes of the line itself.
#[derive(Debug, PartialEq, Eq)]
pub struct PatchLine {
    pub file_id: ObjectId,
    pub origin: char,
    pub content: Vec<u8>,
}

/// The patch of one file.
#[derive(Debug, PartialEq, Eq)]
pub struct FilePatch {
    pub file_id: ObjectId,
    pub text: String,
}

pub struct PatchLineView {
    pub file_id: Seq<char>,
    pub origin: char,
    pub content: Seq<u8>,
}

pub struct FilePatchView {
    pub file_id: Seq<char>,
    pub text: Seq<char>,
}

impl View for PatchLine {
    type V = PatchLineView;

    open spec fn view(&self) -> PatchLineView {
        PatchLineView { file_id: self.file_id@, origin: self.origin, content: self.content@ }
    }
}

impl View for FilePatch {
    type V = FilePatchView;

    open spec fn view(&self) -> FilePatchView {
        FilePatchView { file_id: self.file_id@, text: self.text@ }
    }
}

impl PatchLineView {
    /// The line as it is shown: its text, or nothing where its bytes are
    /// no text.
    pub open spec fn shown(self) -> Seq<char> {
        if valid_utf8(self.content) {
            decode_utf8(self.content)
        } else {
            Seq::empty()
        }
    }

    /// What one line adds to the patch of its file: the marker, then the
    /// line as it is shown.
    pub open spec fn text(self) -> Seq<char> {
        seq![self.origin] + self.shown()
    }
}

/// The views of a list of patch lines.
pub open spec fn line_views(lines: Seq<PatchLine>) -> Seq<PatchLineView> {
    Seq::new(lines.len(), |i: int| lines[i]@)
}

/// The views of a list of file patches.
pub open spec fn patch_views(patches: Seq<FilePatch>) -> Seq<FilePatchView> {
    Seq::new(patches.len(), |i: int| patches[i]@)
}

/// The stream of lines cut into one patch per file.
///
/// A new patch starts at the first line and wherever a line's file differs
/// from that of the line before it; every line goes, in order, to the patch
/// that is open when it comes. No line is dropped and no patch is empty.
pub open spec fn segmented(lines: Seq<PatchLineView>) -> Seq<FilePatchView>
    decreases lines.len(),
{
    if lines.len() == 0 {
        Seq::empty()
    } else {
        let before = segmented(lines.drop_last());
        let line = lines.last();
        if before.len() > 0 && before.last().file_id == line.file_id {
            before.drop_last().push(
                FilePatchView { file_id: line.file_id, text: before.last().text + line.text() },
            )
        } else {
            before.push(FilePatchView { file_id: line.file_id, text: line.text() })
        }
    }
}

/// How many lines differ in file from the line before them.
pub open spec fn transitions(lines: Seq<PatchLineView>) -> nat
    decreases lines.len(),
{
    if lines.len() <= 1 {
        0
    } else {
        let n = lines.len() as int;
        transitions(lines.drop_last()) + if lines[n - 2].file_id != lines[n - 1].file_id {
            1nat
        } else {
            0nat
        }
    }
}

/// All the line texts of a stream, one after another.
pub open spec fn all_lines(lines: Seq<PatchLineView>) -> Seq<char>
    decreases lines.len(),
{
    if lines.len() == 0 {
        Seq::empty()
    } else {
        all_lines(lines.drop_last()) + lines.last().text()
    }
}

/// All the patch texts of a list, one after another.
pub open spec fn all_patches(patches: Seq<FilePatchView>) -> Seq<char>
    decreases patches.len(),
{
    if patches.len() == 0 {
        Seq::empty()
    } else {
        all_patches(patches.drop_last()) + patches.last().text
    }
}

/// The last patch is that of the last line's file.
pub proof fn lemma_last_patch_is_last_file(lines: Seq<PatchLineView>)
    requires
        lines.len() > 0,
    ensures
        segmented(lines).len() > 0,
        segmented(lines).last().file_id == lines.last().file_id,
{
}

/// A stream yields one patch for its first line and one more for each
/// change of file: as many patches as files, where the lines of a file come
/// together.
pub proof fn lemma_patch_count(lines: Seq<PatchLineView>)
    ensures
        lines.len() == 0 ==> segmented(lines).len() == 0,
        lines.len() > 0 ==> segmented(lines).len() == transitions(lines) + 1,
    decreases lines.len(),
{
    if lines.len() > 1 {
        let shorter = lines.drop_last();
        lemma_patch_count(shorter);
        lemma_last_patch_is_last_file(shorter);
        assert(shorter.last() == lines[lines.len() - 2]);
    } else if lines.len() == 1 {
        assert(segmented(lines.drop_last()).len() == 0);
    }
}

/// Neighbouring patches belong to different files, and none is empty.
pub proof fn lemma_patches_are_distinct_runs(lines: Seq<PatchLineView>)
    ensures
        forall|i: int|
            0 < i < segmented(lines).len() ==> #[trigger] segmented(lines)[i].file_id
                != segmented(lines)[i - 1].file_id,
        forall|i: int| 0 <= i < segmented(lines).len() ==> #[trigger] segmented(lines)[i].text.len() > 0,
    decreases lines.len(),
{
    if lines.len() > 0 {
        let before = segmented(lines.drop_last());
        let after = segmented(lines);
        let line = lines.last();
        lemma_patches_are_distinct_runs(lines.drop_last());
        assert(line.text().len() > 0);
        assert forall|i: int| 0 < i < after.len() implies #[trigger] after[i].file_id != after[i
            - 1].file_id by {
            if i < after.len() - 1 {
                assert(after[i] == before[i]);
                assert(after[i - 1] == before[i - 1]);
            } else if before.len() > 0 && before.last().file_id == line.file_id {
                assert(after[i].file_id == before[i].file_id);
                assert(after[i - 1] == before[i - 1]);
            }
        }
        assert forall|i: int| 0 <= i < after.len() implies #[trigger] after[i].text.len() > 0 by {
            if i < after.len() - 1 {
                assert(after[i] == before[i]);
            }
        }
    }
}

/// Segmenting keeps every character of every line, in order: the patches
/// written one after another are the lines written one after another. In
/// particular the first file's lines are in the first patch.
pub proof fn lemma_nothing_is_dropped(lines: Seq<PatchLineView>)
    ensures
        all_patches(segmented(lines)) == all_lines(lines),
    decreases lines.len(),
{
    if lines.len() > 0 {
        let before = segmented(lines.drop_last());
        let line = lines.last();
        lemma_nothing_is_dropped(lines.drop_last());
        if before.len() > 0 && before.last().file_id == line.file_id {
            let merged = FilePatchView {
                file_id: line.file_id,
                text: before.last().text + line.text(),
            };
            let after = before.drop_last().push(merged);
            assert(after.drop_last() =~= before.drop_last());
            assert(all_patches(after) == all_patches(before.drop_last()) + merged.text);
            assert(all_patches(before) == all_patches(before.drop_last()) + before.last().text);
            assert(all_patches(after) =~= all_patches(before) + line.text());
        } else {
            let fresh = FilePatchView { file_id: line.file_id, text: line.text() };
            assert(before.push(fresh).drop_last() =~= before);
        }
    }
}

/// Appends a line as it is shown.
fn append_shown(text: &mut String, line: &PatchLine)
    ensures
        final(text)@ == old(text)@ + line@.shown(),
{
    match from_utf8(line.content.as_slice()) {
        Some(shown) => {
            text.append(shown);
        },
        None => {
            proof {
                assert(text@ + Seq::<char>::empty() =~= text@);
            }
        },
    }
}

/// Cuts the differ's stream of lines into one patch per file.
pub fn segment(lines: &Vec<PatchLine>) -> (patches: Vec<FilePatch>)
    ensures
        patch_views(patches@) == segmented(line_views(lines@)),
{
    let mut done: Vec<FilePatch> = Vec::new();
    let mut open: Option<FilePatch> = None;
    let mut i: usize = 0;
    while i < lines.len()
        invariant
            i <= lines@.len(),
            i == 0 <==> open is None,
            open is None ==> done@.len() == 0,
            open matches Some(current) ==> patch_views(done@).push(current@) == segmented(
                line_views(lines@).subrange(0, i as int),
            ),
        decreases lines@.len() - i,
    {
        let line = &lines[i];
        let ghost seen = line_views(lines@).subrange(0, i as int);
        let ghost next = line_views(lines@).subrange(0, i + 1);
        proof {
            assert(next.drop_last() =~= seen);
            assert(next.last() == line@);
            assert(seen.len() == 0 ==> segmented(seen).len() == 0);
        }
        let continues = match &open {
            Some(current) => current.file_id.same(&line.file_id),
            None => false,
        };
        if continues {
            let current = open.unwrap();
            let ghost before = current@;
            let mut text = current.text;
            push_char(&mut text, line.origin);
            append_shown(&mut text, line);
            let grown = FilePatch { file_id: current.file_id, text };
            proof {
                let whole = patch_views(done@).push(before);
                assert(whole.last() == before);
                assert(whole.drop_last() =~= patch_views(done@));
                assert(grown@.text =~= before.text + line@.text());
                assert(grown@.file_id == line@.file_id);
            }
            open = Some(grown);
        } else {
            let ghost done_before = patch_views(done@);
            let ghost had_open = open is Some;
            let ghost closing = open->Some_0@;
            match open {
                Some(current) => {
                    done.push(current);
                },
                None => {},
            }
            let mut text = String::new();
            push_char(&mut text, line.origin);
            append_shown(&mut text, line);
            let fresh = FilePatch { file_id: line.file_id.clone(), text };
            proof {
                assert(fresh@.text =~= line@.text());
                if had_open {
                    assert(patch_views(done@) =~= done_before.push(closing));
                } else {
                    assert(patch_views(done@) =~= Seq::<FilePatchView>::empty());
                }
            }
            open = Some(fresh);
        }
        i += 1;
    }
    proof {
        assert(line_views(lines@).subrange(0, lines@.len() as int) =~= line_views(lines@));
    }
    let ghost done_before = patch_views(done@);
    match open {
        Some(current) => {
            let ghost last = current@;
            done.push(current);
            proof {
                assert(patch_views(done@) =~= done_before.push(last));
            }
        },
        None => {
            proof {
                assert(patch_views(done@) =~= Seq::<FilePatchView>::empty());
            }
        },
    }
    done
}

/// The patches that a differ's answer stands for: the lines cut by file,
/// and none where the differ gave no answer.
pub open spec fn patches_for(lines: Option<Vec<PatchLine>>) -> Seq<FilePatchView> {
    match lines {
        Some(lines) => segmented(line_views(lines@)),
        None => Seq::empty(),
    }
}

/// Makes the patches of what the differ answered. Patches are best
/// effort: where it could not answer, there are none.
pub fn patches_of(lines: Option<Vec<PatchLine>>) -> (patches: Vec<FilePatch>)
    ensures
        patch_views(patches@) == patches_for(lines),
{
    match lines {
        Some(lines) => segment(&lines),
        None => {
            let none: Vec<FilePatch> = Vec::new();
            proof {
                assert(patch_views(none@) =~= Seq::<FilePatchView>::empty());
            }
            none
        },
    }
}

} // verus!
