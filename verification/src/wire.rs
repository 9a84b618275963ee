//! The text that goes out on an event stream: the payload of an update and the
//! frames that carry a payload or keep an idle connection open.

use vstd::prelude::*;
use vstd::string::*;
use crate::models::{MutationKind, TodoUpdate};

verus! {

/// The character that stands for the digit `d`, for `0 <= d <= 9`.
pub open spec fn digit_char(d: int) -> char {
    if d == 0 {
        '0'
    } else if d == 1 {
        '1'
    } else if d == 2 {
        '2'
    } else if d == 3 {
        '3'
    } else if d == 4 {
        '4'
    } else if d == 5 {
        '5'
    } else if d == 6 {
        '6'
    } else if d == 7 {
        '7'
    } else if d == 8 {
        '8'
    } else {
        '9'
    }
}

/// The decimal digits of `n`, most significant first, without leading zeros.
pub open spec fn decimal_digits(n: nat) -> Seq<char>
    decreases n,
{
    if n < 10 {
        seq![digit_char(n as int)]
    } else {
        decimal_digits(n / 10).push(digit_char((n % 10) as int))
    }
}

/// The decimal text of `i`: a minus sign for a negative number, then its digits.
pub open spec fn decimal_text(i: int) -> Seq<char> {
    if i < 0 {
        seq!['-'] + decimal_digits((-i) as nat)
    } else {
        decimal_digits(i as nat)
    }
}

/// Whether `s` holds a line feed or a carriage return.
pub open spec fn has_line_break(s: Seq<char>) -> bool {
    exists|i: int| 0 <= i < s.len() && (s[i] == '\n' || s[i] == '\r')
}

/// The name under which a kind of mutation goes on the wire.
pub open spec fn kind_name(kind: MutationKind) -> Seq<char> {
    match kind {
        MutationKind::Create => "Create"@,
        MutationKind::Delete => "Delete"@,
    }
}

/// The JSON object that stands for an update: the kind first, then the record.
pub open spec fn update_json(update: TodoUpdate) -> Seq<char> {
    "{\"mutation_kind\":\""@ + kind_name(update.mutation_kind) + "\",\"id\":"@ + decimal_text(
        update.id as int,
    ) + "}"@
}

/// The payload of an update: its JSON object inside a `div` element.
pub open spec fn update_payload(update: TodoUpdate) -> Seq<char> {
    "<div>"@ + update_json(update) + "</div>"@
}

/// The frame that carries a payload of one line: a `data` field and an empty line.
pub open spec fn data_frame_text(payload: Seq<char>) -> Seq<char> {
    "data: "@ + payload + "\n\n"@
}

/// The frame that keeps an idle stream open: a comment and an empty line.
pub open spec fn keep_alive_text() -> Seq<char> {
    ": keep-alive-text\n\n"@
}

/// Why a payload could not be framed.
#[derive(Clone, Copy, Debug, PartialEq, Eq, Structural)]
pub enum EncodingFailure {
    /// The payload holds a line feed or a carriage return.
    LineBreak,
}

fn digit_str(d: u64) -> (s: &'static str)
    requires
        d < 10,
    ensures
        s@ == seq![digit_char(d as int)],
{
    proof {
        reveal_strlit("0");
        reveal_strlit("1");
        reveal_strlit("2");
        reveal_strlit("3");
        reveal_strlit("4");
        reveal_strlit("5");
        reveal_strlit("6");
        reveal_strlit("7");
        reveal_strlit("8");
        reveal_strlit("9");
    }
    let s = if d == 0 {
        "0"
    } else if d == 1 {
        "1"
    } else if d == 2 {
        "2"
    } else if d == 3 {
        "3"
    } else if d == 4 {
        "4"
    } else if d == 5 {
        "5"
    } else if d == 6 {
        "6"
    } else if d == 7 {
        "7"
    } else if d == 8 {
        "8"
    } else {
        "9"
    };
    assert(s@ =~= seq![digit_char(d as int)]);
    s
}

fn append_digits(out: &mut String, n: u64)
    ensures
        final(out)@ == old(out)@ + decimal_digits(n as nat),
    decreases n,
{
    if n >= 10 {
        append_digits(out, n / 10);
    }
    out.append(digit_str(n % 10));
    assert(out@ =~= old(out)@ + decimal_digits(n as nat));
}

/// Writes a record identifier as decimal text.
pub fn decimal(i: i32) -> (text: String)
    ensures
        text@ == decimal_text(i as int),
{
    let mut text = String::new();
    if i < 0 {
        proof {
            reveal_strlit("-");
        }
        text.append("-");
        assert(text@ =~= seq!['-']);
        let magnitude: u64 = (-(i as i64)) as u64;
        append_digits(&mut text, magnitude);
    } else {
        append_digits(&mut text, i as u64);
        assert(text@ =~= decimal_text(i as int));
    }
    text
}

/// The wire name of a kind of mutation.
pub fn kind_str(kind: MutationKind) -> (name: &'static str)
    ensures
        name@ == kind_name(kind),
{
    match kind {
        MutationKind::Create => "Create",
        MutationKind::Delete => "Delete",
    }
}

/// Writes an update as a JSON object, without white space.
pub fn encode_update(update: &TodoUpdate) -> (json: String)
    ensures
        json@ == update_json(*update),
{
    let mut json = String::from_str("{\"mutation_kind\":\"");
    json.append(kind_str(update.mutation_kind));
    json.append("\",\"id\":");
    let id = decimal(update.id);
    json.append(id.as_str());
    json.append("}");
    json
}

/// Writes the payload that a viewer receives for an update.
pub fn render_update(update: &TodoUpdate) -> (payload: String)
    ensures
        payload@ == update_payload(*update),
{
    let mut payload = String::from_str("<div>");
    let json = encode_update(update);
    payload.append(json.as_str());
    payload.append("</div>");
    payload
}

/// Tells whether a text holds a line feed or a carriage return.
pub fn contains_line_break(text: &str) -> (found: bool)
    ensures
        found == has_line_break(text@),
{
    for c in chars: text.chars()
        invariant
            chars.seq() == text@,
            forall|j: int| 0 <= j < chars.index() ==> text@[j] != '\n' && text@[j] != '\r',
    {
        if c == '\n' || c == '\r' {
            return true;
        }
    }
    false
}

/// Frames a payload for the stream. A payload that holds a line break is
/// refused: it would not arrive as one field.
pub fn data_frame(payload: &str) -> (framed: Result<String, EncodingFailure>)
    ensures
        has_line_break(payload@) ==> framed == Err::<String, EncodingFailure>(
            EncodingFailure::LineBreak,
        ),
        !has_line_break(payload@) ==> framed is Ok && framed->Ok_0@ == data_frame_text(payload@),
{
    if contains_line_break(payload) {
        return Err(EncodingFailure::LineBreak);
    }
    let mut frame = String::from_str("data: ");
    frame.append(payload);
    frame.append("\n\n");
    Ok(frame)
}

/// The frame that is sent when a stream has been idle for too long.
pub fn keep_alive_frame() -> (frame: String)
    ensures
        frame@ == keep_alive_text(),
{
    String::from_str(": keep-alive-text\n\n")
}

/// No decimal number holds a line break.
pub proof fn lemma_decimal_digits_single_line(n: nat)
    ensures
        !has_line_break(decimal_digits(n)),
    decreases n,
{
    if n >= 10 {
        lemma_decimal_digits_single_line(n / 10);
    }
}

/// The payload of every update is a single line, so it can always be framed.
pub proof fn lemma_update_payload_single_line(update: TodoUpdate)
    ensures
        !has_line_break(update_payload(update)),
{
    reveal_strlit("<div>");
    reveal_strlit("</div>");
    reveal_strlit("{\"mutation_kind\":\"");
    reveal_strlit("\",\"id\":");
    reveal_strlit("}");
    reveal_strlit("Create");
    reveal_strlit("Delete");
    let i = update.id as int;
    lemma_decimal_digits_single_line(if i < 0 { (-i) as nat } else { i as nat });
    assert(!has_line_break(decimal_text(i)));
    assert(!has_line_break(kind_name(update.mutation_kind)));
    assert(!has_line_break(update_json(update)));
}

/// Frames the payload of an update.
pub fn update_frame(update: &TodoUpdate) -> (frame: String)
    ensures
        frame@ == data_frame_text(update_payload(*update)),
{
    let payload = render_update(update);
    let mut frame = String::from_str("data: ");
    frame.append(payload.as_str());
    frame.append("\n\n");
    frame
}

/// The digits of a number are at least one, are one only below ten, and
/// hold no minus sign.
pub proof fn lemma_decimal_digits_shape(n: nat)
    ensures
        decimal_digits(n).len() >= 1,
        n < 10 <==> decimal_digits(n).len() == 1,
        forall|i: int| 0 <= i < decimal_digits(n).len() ==> decimal_digits(n)[i] != '-',
    decreases n,
{
    if n >= 10 {
        lemma_decimal_digits_shape(n / 10);
    }
}

/// Different numbers have different digits.
pub proof fn lemma_decimal_digits_injective(a: nat, b: nat)
    requires
        decimal_digits(a) == decimal_digits(b),
    ensures
        a == b,
    decreases a,
{
    lemma_decimal_digits_shape(a);
    lemma_decimal_digits_shape(b);
    if a < 10 {
        assert(b < 10);
        assert(decimal_digits(a)[0] == digit_char(a as int));
        assert(decimal_digits(b)[0] == digit_char(b as int));
    } else {
        assert(b >= 10);
        let high_a = decimal_digits(a / 10);
        let high_b = decimal_digits(b / 10);
        let low_a = digit_char((a % 10) as int);
        let low_b = digit_char((b % 10) as int);
        assert(decimal_digits(a) == high_a.push(low_a));
        assert(decimal_digits(b) == high_b.push(low_b));
        assert(high_a.push(low_a).last() == low_a);
        assert(high_b.push(low_b).last() == low_b);
        assert(low_a == low_b);
        assert(a % 10 == b % 10);
        assert(high_a =~= high_a.push(low_a).drop_last());
        assert(high_b =~= high_b.push(low_b).drop_last());
        lemma_decimal_digits_injective(a / 10, b / 10);
        assert(a / 10 == b / 10);
    }
}

/// Different numbers have different decimal texts.
pub proof fn lemma_decimal_text_injective(i: int, j: int)
    requires
        decimal_text(i) == decimal_text(j),
    ensures
        i == j,
{
    let ni = if i < 0 {
        (-i) as nat
    } else {
        i as nat
    };
    let nj = if j < 0 {
        (-j) as nat
    } else {
        j as nat
    };
    lemma_decimal_digits_shape(ni);
    lemma_decimal_digits_shape(nj);
    let minus = seq!['-'];
    if i < 0 && j < 0 {
        lemma_split(minus, decimal_digits(ni), minus, decimal_digits(nj));
        lemma_decimal_digits_injective(ni, nj);
    } else if i >= 0 && j >= 0 {
        lemma_decimal_digits_injective(ni, nj);
    } else if i < 0 {
        assert((minus + decimal_digits(ni))[0] == '-');
        assert(decimal_digits(nj)[0] != '-');
    } else {
        assert((minus + decimal_digits(nj))[0] == '-');
        assert(decimal_digits(ni)[0] != '-');
    }
}

/// Two texts that are equal and are cut at the same place have equal parts.
pub proof fn lemma_split(
    head: Seq<char>,
    tail: Seq<char>,
    other_head: Seq<char>,
    other_tail: Seq<char>,
)
    requires
        head + tail == other_head + other_tail,
        head.len() == other_head.len(),
    ensures
        head == other_head,
        tail == other_tail,
{
    let whole = head + tail;
    let other = other_head + other_tail;
    assert(head =~= whole.subrange(0, head.len() as int));
    assert(other_head =~= other.subrange(0, head.len() as int));
    assert(tail =~= whole.subrange(head.len() as int, whole.len() as int));
    assert(other_tail =~= other.subrange(head.len() as int, other.len() as int));
}

/// A frame tells which update it carries: two updates with the same frame
/// are the same update. So whoever reads a frame can read the update back.
pub proof fn law_frame_tells_update(one: TodoUpdate, other: TodoUpdate)
    requires
        data_frame_text(update_payload(one)) == data_frame_text(update_payload(other)),
    ensures
        update_payload(one) == update_payload(other),
        update_json(one) == update_json(other),
        one == other,
{
    reveal_strlit("data: ");
    reveal_strlit("\n\n");
    reveal_strlit("<div>");
    reveal_strlit("</div>");
    reveal_strlit("{\"mutation_kind\":\"");
    reveal_strlit("\",\"id\":");
    reveal_strlit("}");
    reveal_strlit("Create");
    reveal_strlit("Delete");
    let open = "{\"mutation_kind\":\""@;
    let middle = "\",\"id\":"@;
    let kind_one = kind_name(one.mutation_kind);
    let kind_other = kind_name(other.mutation_kind);
    let id_one = decimal_text(one.id as int);
    let id_other = decimal_text(other.id as int);
    assert(kind_one.len() == 6 && kind_other.len() == 6);
    let frame_one = data_frame_text(update_payload(one));
    let frame_other = data_frame_text(update_payload(other));
    assert(frame_one.len() == ("data: "@ + update_payload(one)).len() + 2);
    assert(frame_other.len() == ("data: "@ + update_payload(other)).len() + 2);
    lemma_split(
        "data: "@ + update_payload(one),
        "\n\n"@,
        "data: "@ + update_payload(other),
        "\n\n"@,
    );
    lemma_split("data: "@, update_payload(one), "data: "@, update_payload(other));
    assert(update_payload(one).len() == ("<div>"@ + update_json(one)).len() + 6);
    assert(update_payload(other).len() == ("<div>"@ + update_json(other)).len() + 6);
    lemma_split("<div>"@ + update_json(one), "</div>"@, "<div>"@ + update_json(other), "</div>"@);
    lemma_split("<div>"@, update_json(one), "<div>"@, update_json(other));
    assert(update_json(one).len() == (open + kind_one + middle + id_one).len() + 1);
    assert(update_json(other).len() == (open + kind_other + middle + id_other).len() + 1);
    lemma_split(
        open + kind_one + middle + id_one,
        "}"@,
        open + kind_other + middle + id_other,
        "}"@,
    );
    assert((open + kind_one + middle).len() == (open + kind_other + middle).len());
    lemma_split(open + kind_one + middle, id_one, open + kind_other + middle, id_other);
    lemma_split(open + kind_one, middle, open + kind_other, middle);
    lemma_split(open, kind_one, open, kind_other);
    assert(kind_one[0] == kind_other[0]);
    lemma_decimal_text_injective(one.id as int, other.id as int);
}

} // verus!
