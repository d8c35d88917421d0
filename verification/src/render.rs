//! The textual listing of received parts.

use vstd::prelude::*;
use vstd::string::StringExecFns;

use crate::part::{part_views, PartView, ReceivedPart};
use crate::sequence::{joined, lemma_joined_push};
use crate::text::{decimal, push_decimal};

verus! {

/// The text shown for a disposition: the description, or nothing where the
/// part has none.
pub open spec fn disposition_text(disposition: Option<Seq<char>>) -> Seq<char> {
    match disposition {
        Some(description) => description,
        None => Seq::empty(),
    }
}

/// The three labelled lines that describe one part. The payload itself is not
/// shown, only its length in bytes.
pub open spec fn part_text(part: PartView) -> Seq<char> {
    "content-type: "@ + part.content_type + "\ncontent-disposition: "@ + disposition_text(
        part.content_disposition,
    ) + "\ncontent-length: "@ + decimal(part.content_data.len())
}

/// The block shown for the part at position `index`, counted from zero.
pub open spec fn block_text(index: nat, part: PartView) -> Seq<char> {
    "Part "@ + decimal(index) + "\n"@ + part_text(part)
}

/// The blocks of a list of parts: one for each part, in the order of the list.
pub open spec fn blocks(parts: Seq<PartView>) -> Seq<Seq<char>> {
    Seq::new(parts.len(), |i: int| block_text(i as nat, parts[i]))
}

/// The listing of a list of parts: their blocks, one after the other, with
/// nothing between them.
pub open spec fn listing(parts: Seq<PartView>) -> Seq<char> {
    joined(blocks(parts))
}

/// The description of a part shows of its payload the length and nothing
/// else: two parts that differ only in the bytes of payloads of one length
/// are described alike.
pub proof fn law_text_hides_payload(part: PartView, other: PartView)
    requires
        part.content_type == other.content_type,
        part.content_disposition == other.content_disposition,
        part.content_data.len() == other.content_data.len(),
    ensures
        part_text(part) == part_text(other),
{
}

impl ReceivedPart {
    /// Appends the description of this part to `out`.
    pub fn write_text(&self, out: &mut String)
        ensures
            final(out)@ == old(out)@ + part_text(self@),
    {
        out.append("content-type: ");
        out.append(self.content_type.as_str());
        out.append("\ncontent-disposition: ");
        match &self.content_disposition {
            Some(description) => {
                out.append(description.as_str());
            },
            None => {},
        }
        out.append("\ncontent-length: ");
        push_decimal(out, self.content_data.len());
        assert(final(out)@ =~= old(out)@ + part_text(self@));
    }

    /// The description of this part: content type, disposition and payload
    /// length, each on a labelled line.
    pub fn to_string(&self) -> (text: String)
        ensures
            text@ == part_text(self@),
    {
        let mut text = String::new();
        self.write_text(&mut text);
        assert(Seq::<char>::empty() + part_text(self@) =~= part_text(self@));
        text
    }
}

/// Appends the block of `part`, numbered `index`, to `out`.
pub fn write_block(out: &mut String, index: usize, part: &ReceivedPart)
    ensures
        final(out)@ == old(out)@ + block_text(index as nat, part@),
{
    out.append("Part ");
    push_decimal(out, index);
    out.append("\n");
    part.write_text(out);
    assert(final(out)@ =~= old(out)@ + block_text(index as nat, part@));
}

/// Renders the listing of `parts`.
pub fn render_listing(parts: &Vec<ReceivedPart>) -> (text: String)
    ensures
        text@ == listing(part_views(parts@)),
{
    let ghost views = part_views(parts@);
    let mut text = String::new();
    let mut i: usize = 0;
    while i < parts.len()
        invariant
            i <= parts.len(),
            views == part_views(parts@),
            text@ == joined(blocks(views).take(i as int)),
        decreases parts.len() - i,
    {
        proof {
            let shown = blocks(views).take(i as int);
            lemma_joined_push(shown, block_text(i as nat, views[i as int]));
            assert(shown.push(block_text(i as nat, views[i as int])) =~= blocks(views).take(
                i + 1,
            ));
        }
        write_block(&mut text, i, &parts[i]);
        i += 1;
    }
    proof {
        assert(blocks(views).take(i as int) =~= blocks(views));
    }
    text
}

} // verus!
