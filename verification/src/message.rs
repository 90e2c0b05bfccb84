//! The text that announces a proposal.
use vstd::prelude::*;
use vstd::string::*;
use vstd::utf8::*;

use crate::types::Proposal;

verus! {

/// The longest announcement, in bytes of UTF-8, before it is cut short.
pub const MESSAGE_BYTE_LIMIT: usize = 1000;

/// The decimal digit `d` (for `d < 10`).
pub open spec fn digit_char(d: nat) -> char {
    "0123456789"@[d as int]
}

/// The decimal form of `n`, without leading zeros.
pub open spec fn decimal(n: nat) -> Seq<char>
    decreases n,
{
    if n < 10 {
        seq![digit_char(n)]
    } else {
        decimal(n / 10).push(digit_char(n % 10))
    }
}

/// The link to the proposal on the ICP dashboard.
pub open spec fn dashboard_url(id: u128) -> Seq<char> {
    "https://dashboard.internetcomputer.org/proposal/"@ + decimal(id as nat)
}

/// A paragraph for the title, when there is one (even an empty one).
pub open spec fn title_section(title: Option<String>) -> Seq<char> {
    match title {
        Some(t) => "\n\n"@ + t@,
        None => Seq::empty(),
    }
}

/// A paragraph for the text, when it is not empty.
pub open spec fn text_section(text: Seq<char>) -> Seq<char> {
    if text.len() == 0 {
        Seq::empty()
    } else {
        "\n\n"@ + text
    }
}

/// The full announcement: link, title, summary and URL, in paragraphs.
pub open spec fn proposal_text(id: u128, proposal: Proposal) -> Seq<char> {
    dashboard_url(id) + title_section(proposal.title) + text_section(proposal.summary@)
        + text_section(proposal.url@)
}

/// A text longer than the limit keeps its first `MESSAGE_BYTE_LIMIT` bytes
/// and ends in "..."; a shorter one is kept whole.
pub open spec fn truncated(text: Seq<char>) -> Seq<char> {
    if encode_utf8(text).len() > MESSAGE_BYTE_LIMIT {
        decode_utf8(encode_utf8(text).subrange(0, MESSAGE_BYTE_LIMIT as int)) + "..."@
    } else {
        text
    }
}

/// A text longer than the limit can be cut only where a character starts.
pub open spec fn truncatable(text: Seq<char>) -> bool {
    encode_utf8(text).len() > MESSAGE_BYTE_LIMIT ==> is_char_boundary(
        encode_utf8(text),
        MESSAGE_BYTE_LIMIT as int,
    )
}

/// The announcement of a proposal, or the empty text when there is no
/// proposal.
pub open spec fn formatted_message(id: u128, proposal_option: Option<Proposal>) -> Seq<char> {
    match proposal_option {
        Some(p) => truncated(proposal_text(id, p)),
        None => Seq::empty(),
    }
}

/// The announcement can be formatted: there is no proposal, or its text
/// can be cut at the limit.
pub open spec fn formattable(id: u128, proposal_option: Option<Proposal>) -> bool {
    match proposal_option {
        Some(p) => truncatable(proposal_text(id, p)),
        None => true,
    }
}

/// The byte length of the announcement fits in memory.
pub open spec fn fits_in_memory(id: u128, proposal_option: Option<Proposal>) -> bool {
    match proposal_option {
        Some(p) => encode_utf8(proposal_text(id, p)).len() <= usize::MAX,
        None => true,
    }
}

/// Appends the decimal form of `n`.
fn append_decimal(s: &mut String, n: u128)
    ensures
        final(s)@ == old(s)@ + decimal(n as nat),
    decreases n,
{
    if n >= 10 {
        append_decimal(s, n / 10);
    }
    let d: usize = (n % 10) as usize;
    let digits = "0123456789";
    proof {
        reveal_strlit("0123456789");
    }
    s.append(digits.substring_char(d, d + 1));
    proof {
        assert(digits@.subrange(d as int, d + 1) =~= seq![digit_char(d as nat)]);
        if n >= 10 {
            assert(s@ =~= old(s)@ + decimal(n as nat / 10).push(digit_char(n as nat % 10)));
        } else {
            assert(s@ =~= old(s)@ + decimal(n as nat));
        }
    }
}

/// Appends a paragraph break and then `text`.
fn append_paragraph(s: &mut String, text: &str)
    ensures
        final(s)@ == old(s)@ + ("\n\n"@ + text@),
{
    s.append("\n\n");
    s.append(text);
    assert(s@ =~= old(s)@ + ("\n\n"@ + text@));
}

/// The full announcement of a proposal, before it is cut short.
fn proposal_text_of(id: u128, proposal: &Proposal) -> (res: String)
    ensures
        res@ == proposal_text(id, *proposal),
{
    let mut m = String::new();
    m.append("https://dashboard.internetcomputer.org/proposal/");
    append_decimal(&mut m, id);
    assert(m@ =~= dashboard_url(id));
    match &proposal.title {
        Some(title) => append_paragraph(&mut m, title.as_str()),
        None => {},
    }
    assert(m@ =~= dashboard_url(id) + title_section(proposal.title));
    if !proposal.summary.as_str().is_empty() {
        append_paragraph(&mut m, proposal.summary.as_str());
    }
    assert(m@ =~= dashboard_url(id) + title_section(proposal.title) + text_section(
        proposal.summary@,
    ));
    if !proposal.url.as_str().is_empty() {
        append_paragraph(&mut m, proposal.url.as_str());
    }
    assert(m@ =~= proposal_text(id, *proposal));
    m
}

/// Cuts the text at `MESSAGE_BYTE_LIMIT` bytes and appends "..." when it is
/// longer than that.
fn truncate_message(message: String) -> (res: String)
    requires
        truncatable(message@),
        encode_utf8(message@).len() <= usize::MAX,
    ensures
        res@ == truncated(message@),
{
    let s = message.as_str();
    if s.len() > MESSAGE_BYTE_LIMIT {
        let (head, _tail) = s.split_at(MESSAGE_BYTE_LIMIT);
        proof {
            encode_utf8_decode_utf8(head@);
        }
        let mut out = head.to_owned();
        out.append("...");
        out
    } else {
        message
    }
}

/// Whether the text of the proposal can be cut at `MESSAGE_BYTE_LIMIT`
/// bytes (it is short enough, or a character starts there).
fn can_truncate(message: &String) -> (res: bool)
    requires
        encode_utf8(message@).len() <= usize::MAX,
    ensures
        res == truncatable(message@),
        res == (encode_utf8(message@).len() <= MESSAGE_BYTE_LIMIT || is_char_boundary(
            encode_utf8(message@),
            MESSAGE_BYTE_LIMIT as int,
        )),
{
    let s = message.as_str();
    s.len() <= MESSAGE_BYTE_LIMIT || s.is_char_boundary(MESSAGE_BYTE_LIMIT)
}

/// The announcement of proposal `id`: the dashboard link, then the title,
/// the summary and the URL each in a paragraph of its own (an empty summary
/// or URL is left out), cut to `MESSAGE_BYTE_LIMIT` bytes followed by "..."
/// when longer; the empty text when there is no proposal.
pub fn format_proposal_message(id: u128, proposal_option: Option<Proposal>) -> (res: String)
    requires
        formattable(id, proposal_option),
        fits_in_memory(id, proposal_option),
    ensures
        res@ == formatted_message(id, proposal_option),
{
    match proposal_option {
        Some(proposal) => {
            let text = proposal_text_of(id, &proposal);
            truncate_message(text)
        },
        None => String::new(),
    }
}

/// The announcement of proposal `id` as `format_proposal_message` gives it,
/// or `None` when the text is longer than `MESSAGE_BYTE_LIMIT` bytes and no
/// character starts at that byte.
pub fn try_format_proposal_message(id: u128, proposal_option: Option<Proposal>) -> (res: Option<
    String,
>)
    requires
        fits_in_memory(id, proposal_option),
    ensures
        res is None <==> !formattable(id, proposal_option),
        res matches Some(s) ==> s@ == formatted_message(id, proposal_option),
        res is None <==> (proposal_option matches Some(p) && encode_utf8(proposal_text(id, p)).len()
            > MESSAGE_BYTE_LIMIT && !is_char_boundary(
            encode_utf8(proposal_text(id, p)),
            MESSAGE_BYTE_LIMIT as int,
        )),
{
    match proposal_option {
        Some(proposal) => {
            let text = proposal_text_of(id, &proposal);
            if can_truncate(&text) {
                Some(truncate_message(text))
            } else {
                None
            }
        },
        None => Some(String::new()),
    }
}

/// The UTF-8 encoding of a concatenation is the concatenation of the
/// encodings.
proof fn lemma_encode_utf8_concat(a: Seq<char>, b: Seq<char>)
    ensures
        encode_utf8(a + b) == encode_utf8(a) + encode_utf8(b),
    decreases a.len(),
{
    if a.len() == 0 {
        assert(a + b =~= b);
        assert(encode_utf8(a) =~= Seq::<u8>::empty());
        assert(encode_utf8(b) =~= encode_utf8(a) + encode_utf8(b));
    } else {
        assert((a + b).drop_first() =~= a.drop_first() + b);
        assert((a + b)[0] == a[0]);
        lemma_encode_utf8_concat(a.drop_first(), b);
        assert(encode_utf8(a + b) =~= encode_utf8(a) + encode_utf8(b));
    }
}

/// No announcement is longer than `MESSAGE_BYTE_LIMIT` bytes of UTF-8
/// followed by the three bytes of "...".
pub proof fn lemma_message_within_limit(id: u128, proposal_option: Option<Proposal>)
    requires
        formattable(id, proposal_option),
    ensures
        encode_utf8(formatted_message(id, proposal_option)).len() <= MESSAGE_BYTE_LIMIT + 3,
{
    broadcast use encode_utf8_valid_utf8;

    match proposal_option {
        Some(p) => {
            let text = proposal_text(id, p);
            let bytes = encode_utf8(text);
            if bytes.len() > MESSAGE_BYTE_LIMIT {
                let head = bytes.subrange(0, MESSAGE_BYTE_LIMIT as int);
                valid_utf8_split(bytes, MESSAGE_BYTE_LIMIT as int);
                decode_utf8_encode_utf8(head);
                reveal_strlit("...");
                lemma_encode_utf8_concat(decode_utf8(head), "..."@);
                let dots = "..."@;
                assert(dots =~= seq!['.', '.', '.']);
                assert(encode_utf8(dots).len() == 3) by {
                    reveal_with_fuel(encode_utf8, 4);
                    assert(dots.drop_first().drop_first().drop_first() =~= Seq::<char>::empty());
                }
            }
        },
        None => {
            assert(encode_utf8(Seq::<char>::empty()).len() == 0);
        },
    }
}

/// An announcement can be formatted exactly when its text is at most
/// `MESSAGE_BYTE_LIMIT` bytes long or a character starts at that byte.
pub proof fn lemma_formattable_exactly_when_cut_starts_a_character(id: u128, p: Proposal)
    ensures
        formattable(id, Some(p)) <==> (encode_utf8(proposal_text(id, p)).len() <= MESSAGE_BYTE_LIMIT
            || is_char_boundary(encode_utf8(proposal_text(id, p)), MESSAGE_BYTE_LIMIT as int)),
{
}

/// A text of at most `MESSAGE_BYTE_LIMIT` bytes is announced whole.
pub proof fn lemma_short_text_is_kept(id: u128, p: Proposal)
    requires
        encode_utf8(proposal_text(id, p)).len() <= MESSAGE_BYTE_LIMIT,
    ensures
        formatted_message(id, Some(p)) == proposal_text(id, p),
{
}

/// A longer text that can be cut is announced as exactly its first
/// `MESSAGE_BYTE_LIMIT` bytes of UTF-8 followed by the three bytes of "...".
pub proof fn lemma_long_text_keeps_its_first_bytes(id: u128, p: Proposal)
    requires
        encode_utf8(proposal_text(id, p)).len() > MESSAGE_BYTE_LIMIT,
        is_char_boundary(encode_utf8(proposal_text(id, p)), MESSAGE_BYTE_LIMIT as int),
    ensures
        encode_utf8(formatted_message(id, Some(p))) == encode_utf8(proposal_text(id, p)).subrange(
            0,
            MESSAGE_BYTE_LIMIT as int,
        ) + seq![46u8, 46u8, 46u8],
{
    broadcast use encode_utf8_valid_utf8;

    let bytes = encode_utf8(proposal_text(id, p));
    let head = bytes.subrange(0, MESSAGE_BYTE_LIMIT as int);
    valid_utf8_split(bytes, MESSAGE_BYTE_LIMIT as int);
    decode_utf8_encode_utf8(head);
    reveal_strlit("...");
    let dots = "..."@;
    lemma_encode_utf8_concat(decode_utf8(head), dots);
    assert(dots =~= seq!['.', '.', '.']);
    assert(encode_utf8(dots) =~= seq![46u8, 46u8, 46u8]) by {
        assert((46u32 & 0x7Fu32) as u8 == 46u8) by (bit_vector);
        assert('.' as u32 == 46u32);
        reveal_with_fuel(encode_utf8, 4);
        assert(dots.drop_first().drop_first().drop_first() =~= Seq::<char>::empty());
    }
}

/// The value of a sequence of decimal digits.
pub open spec fn decimal_value(digits: Seq<char>) -> int
    decreases digits.len(),
{
    if digits.len() == 0 {
        0
    } else {
        decimal_value(digits.drop_last()) * 10 + (digits.last() as int - '0' as int)
    }
}

/// The decimal form of `n` is made of the digits '0' to '9', starts with a
/// digit other than '0' unless `n` is 0, and reads back as `n`.
pub proof fn lemma_decimal_reads_back(n: nat)
    ensures
        decimal(n).len() > 0,
        forall|i: int| 0 <= i < decimal(n).len() ==> '0' <= #[trigger] decimal(n)[i] <= '9',
        n != 0 ==> decimal(n)[0] != '0',
        decimal_value(decimal(n)) == n,
    decreases n,
{
    reveal_strlit("0123456789");
    let d = n % 10;
    assert(digit_char(d) as int - '0' as int == d && '0' <= digit_char(d) <= '9') by {
        assert(d < 10);
        if d == 0 {} else if d == 1 {} else if d == 2 {} else if d == 3 {} else if d == 4 {}
        else if d == 5 {} else if d == 6 {} else if d == 7 {} else if d == 8 {} else {}
    }
    if n >= 10 {
        lemma_decimal_reads_back(n / 10);
        let s = decimal(n);
        assert(s.drop_last() =~= decimal(n / 10));
        assert(s.last() == digit_char(d));
        assert((n / 10) * 10 + d == n) by (nonlinear_arith)
            requires d == n % 10;
        assert forall|i: int| 0 <= i < s.len() implies '0' <= #[trigger] s[i] <= '9' by {
            if i < s.len() - 1 {
                assert(s[i] == decimal(n / 10)[i]);
            }
        }
        assert(s[0] == decimal(n / 10)[0]);
        assert(n / 10 != 0);
        assert(decimal_value(s) == decimal_value(decimal(n / 10)) * 10 + (digit_char(d) as int
            - '0' as int));
    } else {
        assert(d == n);
        let s = decimal(n);
        assert(s =~= seq![digit_char(d)]);
        assert(s.drop_last() =~= Seq::<char>::empty());
        assert(decimal_value(s.drop_last()) == 0);
        assert(decimal_value(s) == decimal_value(s.drop_last()) * 10 + (digit_char(d) as int
            - '0' as int));
    }
}

/// Every announcement of a proposal starts with the dashboard link, whose
/// last part is the proposal's number in decimal.
pub proof fn lemma_text_starts_with_dashboard_link(id: u128, p: Proposal)
    ensures
        proposal_text(id, p).len() >= dashboard_url(id).len(),
        proposal_text(id, p).subrange(0, dashboard_url(id).len() as int) == dashboard_url(id),
        decimal_value(decimal(id as nat)) == id,
{
    lemma_decimal_reads_back(id as nat);
    let t = proposal_text(id, p);
    assert(t.subrange(0, dashboard_url(id).len() as int) =~= dashboard_url(id));
}

/// The parts of an announcement: after the dashboard link comes a paragraph
/// break and the title (when there is one), then the summary and the URL
/// each after a paragraph break when not empty; the text ends with the URL,
/// or with the summary when the URL is empty, and nothing else is added.
pub proof fn lemma_text_parts(id: u128, p: Proposal)
    ensures
        ({
            let t = proposal_text(id, p);
            let start = dashboard_url(id).len() as int;
            &&& t.len() == start + (match p.title {
                Some(title) => 2 + title@.len(),
                None => 0,
            }) + (if p.summary@.len() == 0 {
                0
            } else {
                2 + p.summary@.len()
            }) + (if p.url@.len() == 0 {
                0
            } else {
                2 + p.url@.len()
            })
            &&& p.title matches Some(title) ==> t.subrange(start, start + 2 + title@.len()) == seq![
                '\n',
                '\n',
            ] + title@
            &&& p.url@.len() > 0 ==> t.subrange(t.len() - p.url@.len() - 2, t.len() as int)
                == seq!['\n', '\n'] + p.url@
            &&& p.url@.len() == 0 && p.summary@.len() > 0 ==> t.subrange(
                t.len() - p.summary@.len() - 2,
                t.len() as int,
            ) == seq!['\n', '\n'] + p.summary@
        }),
{
    reveal_strlit("\n\n");
    let brk = "\n\n"@;
    assert(brk =~= seq!['\n', '\n']);
    let t = proposal_text(id, p);
    let a = dashboard_url(id);
    let b = title_section(p.title);
    let c = text_section(p.summary@);
    let d = text_section(p.url@);
    assert(t =~= a + b + c + d);
    let start = a.len() as int;
    if p.title is Some {
        assert(t.subrange(start, start + b.len()) =~= b);
    }
    if p.url@.len() > 0 {
        assert(t.subrange(t.len() - d.len(), t.len() as int) =~= d);
    } else if p.summary@.len() > 0 {
        assert(d =~= Seq::<char>::empty());
        assert(t.subrange(t.len() - c.len(), t.len() as int) =~= c);
    }
}

} // verus!
