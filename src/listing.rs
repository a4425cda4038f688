//! The admin listing of a project's blocks: one entry per block with its type, its
//! preview, and its edit and delete controls.

use vstd::prelude::*;
use crate::content::{preview_of, tag_of};
use crate::store::ContentBlock;
use crate::text::{push_char, push_str};

verus! {

/// The hexadecimal digit for `d < 16`, in lower case.
pub open spec fn hex_digit(d: nat) -> char {
    if d < 10 {
        crate::text::digit(d)
    } else if d == 10 {
        'a'
    } else if d == 11 {
        'b'
    } else if d == 12 {
        'c'
    } else if d == 13 {
        'd'
    } else if d == 14 {
        'e'
    } else {
        'f'
    }
}

/// The `count` lowest hexadecimal digits of `n`, most significant first.
pub open spec fn hex_digits(n: nat, count: nat) -> Seq<char>
    decreases count,
{
    if count == 0 {
        Seq::empty()
    } else {
        hex_digits(n / 16, (count - 1) as nat).push(hex_digit(n % 16))
    }
}

/// The canonical hyphenated form of a 128-bit identifier: 8-4-4-4-12 lower-case
/// hexadecimal digits, most significant first.
pub open spec fn uuid_text(id: u128) -> Seq<char> {
    let n = id as nat;
    hex_digits(n / 0x1_0000_0000_0000_0000_0000_0000, 8) + "-"@
        + hex_digits((n / 0x1_0000_0000_0000_0000_0000) % 0x1_0000, 4) + "-"@
        + hex_digits((n / 0x1_0000_0000_0000_0000) % 0x1_0000, 4) + "-"@
        + hex_digits((n / 0x1_0000_0000_0000) % 0x1_0000, 4) + "-"@
        + hex_digits(n % 0x1_0000_0000_0000, 12)
}

fn hex_char(d: u128) -> (r: char)
    requires
        d < 16,
    ensures
        r == hex_digit(d as nat),
{
    match d {
        0 => '0',
        1 => '1',
        2 => '2',
        3 => '3',
        4 => '4',
        5 => '5',
        6 => '6',
        7 => '7',
        8 => '8',
        9 => '9',
        10 => 'a',
        11 => 'b',
        12 => 'c',
        13 => 'd',
        14 => 'e',
        _ => 'f',
    }
}

fn push_hex(s: &mut String, n: u128, count: u32)
    ensures
        final(s)@ == old(s)@ + hex_digits(n as nat, count as nat),
    decreases count,
{
    if count > 0 {
        push_hex(s, n / 16, count - 1);
        push_char(s, hex_char(n % 16));
    }
}

/// The hyphenated text of the identifier `id`.
pub fn format_uuid(id: u128) -> (r: String)
    ensures
        r@ == uuid_text(id),
{
    let mut out = String::new();
    push_hex(&mut out, id / 0x1_0000_0000_0000_0000_0000_0000, 8);
    push_str(&mut out, "-");
    push_hex(&mut out, (id / 0x1_0000_0000_0000_0000_0000) % 0x1_0000, 4);
    push_str(&mut out, "-");
    push_hex(&mut out, (id / 0x1_0000_0000_0000_0000) % 0x1_0000, 4);
    push_str(&mut out, "-");
    push_hex(&mut out, (id / 0x1_0000_0000_0000) % 0x1_0000, 4);
    push_str(&mut out, "-");
    push_hex(&mut out, id % 0x1_0000_0000_0000, 12);
    out
}

/// The listing entry of block `b`, with the anti-forgery token `token` in its delete
/// form.
pub open spec fn block_item_html(b: ContentBlock, token: Seq<char>) -> Seq<char> {
    let uuid = uuid_text(b.id);
    "<div class=\"block-item\" data-id=\""@ + uuid + "\">\n            <div class=\"drag-handle material-icons\">drag_indicator</div>\n            <div class=\"block-info\">\n                <span class=\"block-type\">"@ + tag_of(b.content@) + "</span>\n                <span class=\"block-preview\">"@ + preview_of(b.content@)
        + "</span>\n            </div>\n            <div class=\"block-actions\">\n                <a href=\"/admin/blocks/"@ + uuid + "\" class=\"icon-btn\" title=\"Edit\">\n                    <span class=\"material-icons\">edit</span>\n                </a>\n                <form method=\"POST\" action=\"/admin/blocks/delete/"@ + uuid + "\" class=\"inline-form confirm-delete\">\n                    <input type=\"hidden\" name=\"authenticity_token\" value=\""@ + token + "\">\n                    <button type=\"submit\" class=\"icon-btn delete\" title=\"Delete\">\n                        <span class=\"material-icons\">delete</span>\n                    </button>\n                </form>\n            </div>\n        </div>\n"@
}

/// The listing entries of the blocks at `positions`, in that order.
pub open spec fn blocks_html(blocks: Seq<ContentBlock>, positions: Seq<usize>, token: Seq<char>) -> Seq<char>
    decreases positions.len(),
{
    if positions.len() == 0 {
        Seq::empty()
    } else {
        blocks_html(blocks, positions.drop_last(), token) + block_item_html(
            blocks[positions.last() as int],
            token,
        )
    }
}

/// The listing of the blocks at `positions` (as `ordered_positions` gives them), one
/// entry per block.
pub fn blocks_list_html(blocks: &Vec<ContentBlock>, positions: &Vec<usize>, csrf_token: &str) -> (r: String)
    requires
        forall|k: int| 0 <= k < positions.len() ==> (#[trigger] positions[k]) < blocks.len(),
    ensures
        r@ == blocks_html(blocks@, positions@, csrf_token@),
{
    let mut out = String::new();
    let mut i: usize = 0;
    while i < positions.len()
        invariant
            i <= positions.len(),
            forall|k: int| 0 <= k < positions.len() ==> (#[trigger] positions[k]) < blocks.len(),
            out@ == blocks_html(blocks@, positions@.take(i as int), csrf_token@),
        decreases positions.len() - i,
    {
        let b = &blocks[positions[i]];
        let uuid = format_uuid(b.id);
        let kind = b.content.block_type();
        let preview = b.content.preview();
        push_str(&mut out, "<div class=\"block-item\" data-id=\"");
        push_str(&mut out, uuid.as_str());
        push_str(&mut out, "\">\n            <div class=\"drag-handle material-icons\">drag_indicator</div>\n            <div class=\"block-info\">\n                <span class=\"block-type\">");
        push_str(&mut out, kind.as_str());
        push_str(&mut out, "</span>\n                <span class=\"block-preview\">");
        push_str(&mut out, preview.as_str());
        push_str(&mut out, "</span>\n            </div>\n            <div class=\"block-actions\">\n                <a href=\"/admin/blocks/");
        push_str(&mut out, uuid.as_str());
        push_str(&mut out, "\" class=\"icon-btn\" title=\"Edit\">\n                    <span class=\"material-icons\">edit</span>\n                </a>\n                <form method=\"POST\" action=\"/admin/blocks/delete/");
        push_str(&mut out, uuid.as_str());
        push_str(&mut out, "\" class=\"inline-form confirm-delete\">\n                    <input type=\"hidden\" name=\"authenticity_token\" value=\"");
        push_str(&mut out, csrf_token);
        push_str(&mut out, "\">\n                    <button type=\"submit\" class=\"icon-btn delete\" title=\"Delete\">\n                        <span class=\"material-icons\">delete</span>\n                    </button>\n                </form>\n            </div>\n        </div>\n");
        proof {
            assert(positions@.take(i + 1).drop_last() =~= positions@.take(i as int));
        }
        i = i + 1;
    }
    assert(positions@.take(i as int) =~= positions@);
    out
}

} // verus!
