//! Rendering of discovered blocks, the provider-unreachable notice and the
//! uptime reply into outbound messages.

use vstd::prelude::*;
use crate::block::{BlockModel, BlockRecord, models_of};
use crate::numfmt::{comma_grouped, comma_grouped_text, dec_digits, decimal_text};
use crate::timefmt::{MAX_RENDERABLE_TIMESTAMP, dhms_text, dhms_duration_text, utc_datetime_text, utc_text_of};

verus! {

/// The message kind used for plain text notes on the messaging network.
pub const TEXT_NOTE_KIND: u64 = 1;

/// An outbound message: text content plus (key, value) tag pairs, ready
/// for the surrounding program to sign and publish.
pub struct Message {
    pub created_at: u64,
    pub kind: u64,
    pub content: String,
    pub tags: Vec<(String, String)>,
}

/// The link to a block on the data provider's explorer.
pub open spec fn block_link(id: Seq<char>) -> Seq<char> {
    "https://mempool.space/block/"@ + id
}

/// The header line of a new-blocks announcement.
pub open spec fn header_text(count: nat) -> Seq<char> {
    "Got "@ + dec_digits(count) + " newly mined block(s):\n"@
}

/// The identifier line of a block section.
pub open spec fn id_line(b: BlockModel) -> Seq<char> {
    b.id + "\n"@
}

/// The height line of a block section, digits comma-grouped.
pub open spec fn height_line(b: BlockModel) -> Seq<char> {
    "- height: "@ + comma_grouped(b.height) + "\n"@
}

/// The timestamp line of a block section, as UTC calendar text.
pub open spec fn timestamp_line(b: BlockModel) -> Seq<char> {
    "- timestamp: "@ + utc_text_of(b.timestamp) + "\n"@
}

/// The transaction-count line of a block section, digits comma-grouped.
pub open spec fn tx_count_line(b: BlockModel) -> Seq<char> {
    "- tx count: "@ + comma_grouped(b.tx_count) + "\n"@
}

/// The size line of a block section, digits comma-grouped.
pub open spec fn size_line(b: BlockModel) -> Seq<char> {
    "- size: "@ + comma_grouped(b.size) + "\n"@
}

/// The weight line of a block section, digits comma-grouped.
pub open spec fn weight_line(b: BlockModel) -> Seq<char> {
    "- weight: "@ + comma_grouped(b.weight) + "\n"@
}

/// The link line of a block section.
pub open spec fn link_line(b: BlockModel) -> Seq<char> {
    "- "@ + block_link(b.id) + "\n"@
}

/// The lines describing one block: its identifier, its figures with
/// comma-grouped digits, its timestamp as UTC calendar text, and a link.
pub open spec fn block_section(b: BlockModel) -> Seq<char> {
    id_line(b) + height_line(b) + timestamp_line(b) + tx_count_line(b) + size_line(b)
        + weight_line(b) + link_line(b)
}

/// The sections of the first `n` blocks, one blank line between
/// consecutive sections of the whole batch, none after the last.
pub open spec fn sections_upto(bs: Seq<BlockModel>, n: int) -> Seq<char>
    decreases n,
{
    if n <= 0 {
        Seq::<char>::empty()
    } else {
        sections_upto(bs, n - 1) + block_section(bs[n - 1]) + (if n < bs.len() {
            "\n"@
        } else {
            Seq::<char>::empty()
        })
    }
}

/// The whole content of a new-blocks announcement, blocks in the order
/// given (the reconciler hands them newest first, and they are displayed
/// in that same order).
pub open spec fn blocks_content(bs: Seq<BlockModel>) -> Seq<char> {
    header_text(bs.len()) + sections_upto(bs, bs.len() as int)
}

/// The fixed text of the provider-unreachable notice.
pub open spec fn unreachable_text() -> Seq<char> {
    "I'm unable to reach the API."@
}

/// The text of the uptime reply.
pub open spec fn running_for_text(secs: nat) -> Seq<char> {
    "Running for "@ + dhms_text(secs)
}

/// Appends the section describing one block, and returns the link to the
/// block for its reference tag.
fn append_block_section(content: &mut String, b: &BlockRecord) -> (link: String)
    requires
        b.timestamp <= MAX_RENDERABLE_TIMESTAMP,
    ensures
        final(content)@ == old(content)@ + block_section(b@),
        link@ == block_link(b@.id),
{
    let ghost c0 = content@;
    content.append(b.id.as_str());
    content.append("\n");
    assert(content@ =~= c0 + id_line(b@));
    let ghost c1 = content@;
    content.append("- height: ");
    let height_text = comma_grouped_text(b.height);
    content.append(height_text.as_str());
    content.append("\n");
    assert(content@ =~= c1 + height_line(b@));
    let ghost c2 = content@;
    content.append("- timestamp: ");
    let ts_text = utc_datetime_text(b.timestamp);
    content.append(ts_text.as_str());
    content.append("\n");
    assert(content@ =~= c2 + timestamp_line(b@));
    let ghost c3 = content@;
    content.append("- tx count: ");
    let tx_text = comma_grouped_text(b.tx_count);
    content.append(tx_text.as_str());
    content.append("\n");
    assert(content@ =~= c3 + tx_count_line(b@));
    let ghost c4 = content@;
    content.append("- size: ");
    let size_text = comma_grouped_text(b.size);
    content.append(size_text.as_str());
    content.append("\n");
    assert(content@ =~= c4 + size_line(b@));
    let ghost c5 = content@;
    content.append("- weight: ");
    let weight_text = comma_grouped_text(b.weight);
    content.append(weight_text.as_str());
    content.append("\n");
    assert(content@ =~= c5 + weight_line(b@));
    let ghost c6 = content@;
    let mut link = String::new();
    link.append("https://mempool.space/block/");
    link.append(b.id.as_str());
    assert(link@ =~= block_link(b@.id));
    content.append("- ");
    content.append(link.as_str());
    content.append("\n");
    assert(content@ =~= c6 + link_line(b@));
    assert(content@ =~= c0 + block_section(b@));
    link
}

/// Renders a batch of newly discovered blocks, in the order given, as one
/// message: a count header, one section per block separated by blank
/// lines, a topic tag, and one reference tag per block.
pub fn format_blocks(blocks: &Vec<BlockRecord>, created_at: u64) -> (m: Message)
    requires
        forall|k: int|
            0 <= k < blocks@.len() ==> (#[trigger] blocks@[k]).timestamp
                <= MAX_RENDERABLE_TIMESTAMP,
    ensures
        m.created_at == created_at,
        m.kind == TEXT_NOTE_KIND,
        m.content@ == blocks_content(models_of(blocks@)),
        m.tags@.len() == 1 + blocks@.len(),
        m.tags@[0].0@ == "#t"@ && m.tags@[0].1@ == "bitcoin"@,
        forall|k: int|
            0 <= k < blocks@.len() ==> (#[trigger] m.tags@[k + 1]).0@ == "#r"@ && m.tags@[k
                + 1].1@ == block_link(blocks@[k]@.id),
{
    let ghost ms = models_of(blocks@);
    let mut content = String::new();
    content.append("Got ");
    let count_text = decimal_text(blocks.len() as u64);
    content.append(count_text.as_str());
    content.append(" newly mined block(s):\n");
    assert(content@ =~= header_text(ms.len()));

    let mut tags: Vec<(String, String)> = Vec::new();
    tags.push(("#t".to_owned(), "bitcoin".to_owned()));

    let mut i: usize = 0;
    while i < blocks.len()
        invariant
            0 <= i <= blocks@.len(),
            ms == models_of(blocks@),
            forall|k: int|
                0 <= k < blocks@.len() ==> (#[trigger] blocks@[k]).timestamp
                    <= MAX_RENDERABLE_TIMESTAMP,
            content@ == header_text(ms.len()) + sections_upto(ms, i as int),
            tags@.len() == 1 + i,
            tags@[0].0@ == "#t"@ && tags@[0].1@ == "bitcoin"@,
            forall|k: int|
                0 <= k < i ==> (#[trigger] tags@[k + 1]).0@ == "#r"@ && tags@[k + 1].1@
                    == block_link(blocks@[k]@.id),
        decreases blocks@.len() - i,
    {
        let b = &blocks[i];
        assert(ms[i as int] == blocks@[i as int]@);
        let link = append_block_section(&mut content, b);
        let ghost with_section = content@;
        if i + 1 < blocks.len() {
            content.append("\n");
        }
        tags.push(("#r".to_owned(), link));
        proof {
            let n = i + 1 as int;
            if n < ms.len() {
                assert(content@ =~= with_section + "\n"@);
            }
            assert(content@ =~= header_text(ms.len()) + sections_upto(ms, n));
        }
        i = i + 1;
    }

    Message { created_at, kind: TEXT_NOTE_KIND, content, tags }
}

/// The fixed informational message sent when the provider is unreachable.
pub fn format_unreachable_notice(created_at: u64) -> (m: Message)
    ensures
        m.created_at == created_at,
        m.kind == TEXT_NOTE_KIND,
        m.content@ == unreachable_text(),
        m.tags@.len() == 0,
{
    let content = "I'm unable to reach the API.".to_owned();
    Message { created_at, kind: TEXT_NOTE_KIND, content, tags: Vec::new() }
}

/// The uptime reply for an elapsed number of seconds.
pub fn uptime_text(secs: u64) -> (r: String)
    ensures
        r@ == running_for_text(secs as nat),
{
    let mut reply = String::new();
    reply.append("Running for ");
    let elapsed = dhms_duration_text(secs);
    reply.append(elapsed.as_str());
    assert(reply@ =~= running_for_text(secs as nat));
    reply
}

} // verus!
