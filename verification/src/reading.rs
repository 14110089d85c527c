//! The canonical text can be read back: what was written decides the text,
//! and the text decides what was written. Each law here says of one part of
//! the text that it ends where it ends: whatever follows it, two texts that
//! agree were written from the same value and are followed by the same.

use vstd::prelude::*;
use crate::block::{
    block_text, transaction_list_text, transaction_text, BlockView, TransactionView,
};
use crate::text::{decimal, digit, escape, escaped, hex_digit, json_string, signed_decimal};

verus! {

/// The character is a decimal digit.
pub open spec fn is_digit(c: char) -> bool {
    '0' <= c <= '9'
}

/// The text is empty or starts with a character that is no digit.
pub open spec fn ends_a_numeral(rest: Seq<char>) -> bool {
    rest.len() == 0 || !is_digit(rest[0])
}

/// The number that a text of digits denotes.
pub open spec fn numeral_value(s: Seq<char>) -> nat
    decreases s.len(),
{
    if s.len() == 0 {
        0
    } else {
        numeral_value(s.drop_last()) * 10 + ((s.last() as u32 - 48) as nat)
    }
}

/// A text of three parts is the same however its parts are grouped.
pub proof fn parts_regroup(a: Seq<char>, b: Seq<char>, c: Seq<char>)
    ensures
        (a + b) + c == a + (b + c),
{
    assert((a + b) + c =~= a + (b + c));
}

/// Two texts that start with the same part go on with the same.
pub proof fn same_start_same_rest(start: Seq<char>, a: Seq<char>, b: Seq<char>)
    requires
        start + a == start + b,
    ensures
        a == b,
{
    assert((start + a).len() == start.len() + a.len());
    assert((start + b).len() == start.len() + b.len());
    assert(a.len() == b.len());
    assert forall|i: int| 0 <= i < a.len() implies a[i] == b[i] by {
        assert((start + a)[start.len() + i] == a[i]);
        assert((start + b)[start.len() + i] == b[i]);
    }
    assert(a =~= b);
}

/// Two texts that agree, and whose first parts are of one length, agree part
/// by part.
pub proof fn same_length_same_parts(x: Seq<char>, a: Seq<char>, y: Seq<char>, b: Seq<char>)
    requires
        x + a == y + b,
        x.len() == y.len(),
    ensures
        x == y,
        a == b,
{
    assert forall|i: int| 0 <= i < x.len() implies x[i] == y[i] by {
        assert((x + a)[i] == x[i]);
        assert((y + b)[i] == y[i]);
    }
    assert(x =~= y);
    same_start_same_rest(x, a, b);
}

/// A decimal numeral is not empty and holds digits alone.
pub proof fn decimal_holds_digits(n: nat)
    ensures
        decimal(n).len() > 0,
        forall|i: int| 0 <= i < decimal(n).len() ==> is_digit(#[trigger] decimal(n)[i]),
    decreases n,
{
    if n >= 10 {
        decimal_holds_digits(n / 10);
    }
}

/// A decimal numeral denotes the number it was written from.
pub proof fn decimal_denotes_its_number(n: nat)
    ensures
        numeral_value(decimal(n)) == n,
    decreases n,
{
    let numeral = decimal(n);
    assert(numeral.last() == digit(n % 10));
    assert(digit(n % 10) as u32 == 48 + n % 10);
    if n >= 10 {
        decimal_denotes_its_number(n / 10);
        assert(numeral.drop_last() =~= decimal(n / 10));
    } else {
        assert(numeral.drop_last() =~= Seq::<char>::empty());
        assert(numeral_value(numeral.drop_last()) == 0);
    }
    assert(numeral_value(numeral) == numeral_value(numeral.drop_last()) * 10 + ((numeral.last()
        as u32 - 48) as nat));
}

/// A decimal numeral ends where the digits end: two numerals, each followed
/// by something that is no digit, make the same text only where the numbers
/// are the same and what follows is the same.
pub proof fn decimal_is_read_back(a: nat, rest_a: Seq<char>, b: nat, rest_b: Seq<char>)
    requires
        decimal(a) + rest_a == decimal(b) + rest_b,
        ends_a_numeral(rest_a),
        ends_a_numeral(rest_b),
    ensures
        a == b,
        rest_a == rest_b,
{
    let x = decimal(a);
    let y = decimal(b);
    decimal_holds_digits(a);
    decimal_holds_digits(b);
    assert((x + rest_a).len() == (y + rest_b).len());
    if x.len() < y.len() {
        assert((x + rest_a)[x.len() as int] == rest_a[0]);
        assert((y + rest_b)[x.len() as int] == y[x.len() as int]);
    } else if y.len() < x.len() {
        assert((y + rest_b)[y.len() as int] == rest_b[0]);
        assert((x + rest_a)[y.len() as int] == x[y.len() as int]);
    }
    same_length_same_parts(x, rest_a, y, rest_b);
    decimal_denotes_its_number(a);
    decimal_denotes_its_number(b);
}

/// A signed decimal numeral is read back as a decimal numeral is.
pub proof fn signed_decimal_is_read_back(a: int, rest_a: Seq<char>, b: int, rest_b: Seq<char>)
    requires
        signed_decimal(a) + rest_a == signed_decimal(b) + rest_b,
        ends_a_numeral(rest_a),
        ends_a_numeral(rest_b),
    ensures
        a == b,
        rest_a == rest_b,
{
    let minus = seq!['-'];
    if a < 0 {
        decimal_holds_digits((-a) as nat);
    } else {
        decimal_holds_digits(a as nat);
    }
    if b < 0 {
        decimal_holds_digits((-b) as nat);
    } else {
        decimal_holds_digits(b as nat);
    }
    assert((signed_decimal(a) + rest_a)[0] == signed_decimal(a)[0]);
    assert((signed_decimal(b) + rest_b)[0] == signed_decimal(b)[0]);
    if a < 0 {
        assert(signed_decimal(a)[0] == '-');
        if b < 0 {
            let da = decimal((-a) as nat);
            let db = decimal((-b) as nat);
            assert(signed_decimal(a) + rest_a =~= minus + (da + rest_a));
            assert(signed_decimal(b) + rest_b =~= minus + (db + rest_b));
            same_start_same_rest(minus, da + rest_a, db + rest_b);
            decimal_is_read_back((-a) as nat, rest_a, (-b) as nat, rest_b);
        } else {
            assert(is_digit(signed_decimal(b)[0]));
        }
    } else {
        assert(is_digit(signed_decimal(a)[0]));
        if b < 0 {
            assert(signed_decimal(b)[0] == '-');
        } else {
            decimal_is_read_back(a as nat, rest_a, b as nat, rest_b);
        }
    }
}

/// The escapes of a text that is made of two parts are the escapes of the
/// first part, then those of the second.
pub proof fn escaped_of_parts(s: Seq<char>, t: Seq<char>)
    ensures
        escaped(s + t) == escaped(s) + escaped(t),
    decreases t.len(),
{
    if t.len() == 0 {
        assert(s + t =~= s);
        assert(escaped(s) + escaped(t) =~= escaped(s));
    } else {
        escaped_of_parts(s, t.drop_last());
        assert((s + t).drop_last() =~= s + t.drop_last());
        assert((s + t).last() == t.last());
        assert((escaped(s) + escaped(t.drop_last())) + escape(t.last()) =~= escaped(s) + (escaped(
            t.drop_last(),
        ) + escape(t.last())));
    }
}

/// The escapes of a text that is not empty are the escape of its first
/// character, then the escapes of the others.
pub proof fn escaped_from_the_front(s: Seq<char>)
    requires
        s.len() > 0,
    ensures
        escaped(s) == escape(s[0]) + escaped(s.drop_first()),
{
    let first = seq![s[0]];
    assert(first.drop_last() =~= Seq::<char>::empty());
    assert(escaped(first.drop_last()) =~= Seq::<char>::empty());
    assert(first.last() == s[0]);
    assert(escaped(first) =~= escape(s[0]));
    assert(first + s.drop_first() =~= s);
    escaped_of_parts(first, s.drop_first());
}

/// An escape is never empty and never starts with a quotation mark.
pub proof fn escape_starts_without_quote(c: char)
    ensures
        escape(c).len() > 0,
        escape(c)[0] != '"',
{
}

/// An escape ends where it ends: two escapes, each followed by anything,
/// make the same text only where the characters are the same and what
/// follows is the same.
pub proof fn escape_is_read_back(a: char, rest_a: Seq<char>, b: char, rest_b: Seq<char>)
    requires
        escape(a) + rest_a == escape(b) + rest_b,
    ensures
        a == b,
        rest_a == rest_b,
{
    let x = escape(a);
    let y = escape(b);
    let whole = x + rest_a;
    assert(whole == y + rest_b);
    assert(whole[0] == x[0] && whole[0] == y[0]);
    if x[0] == '\\' {
        assert(x.len() >= 2 && y.len() >= 2);
        assert(whole[1] == x[1] && whole[1] == y[1]);
        if x[1] == 'u' {
            assert(x.len() == 6 && y.len() == 6);
            assert(whole[4] == x[4] && whole[4] == y[4]);
            assert(whole[5] == x[5] && whole[5] == y[5]);
            let high_a = (a as u32 / 16) as nat;
            let high_b = (b as u32 / 16) as nat;
            let low_a = (a as u32 % 16) as nat;
            let low_b = (b as u32 % 16) as nat;
            hex_digit_is_read_back(high_a, high_b);
            hex_digit_is_read_back(low_a, low_b);
            assert(a as u32 == b as u32);
        }
    }
    assert(x.len() == y.len());
    same_length_same_parts(x, rest_a, y, rest_b);
}

/// Two hexadecimal digits are the same character only where they stand for
/// the same number.
pub proof fn hex_digit_is_read_back(a: nat, b: nat)
    requires
        a < 16,
        b < 16,
        hex_digit(a) == hex_digit(b),
    ensures
        a == b,
{
    assert(hex_digit(a) as u32 == if a < 10 { 48 + a } else { 87 + a });
    assert(hex_digit(b) as u32 == if b < 10 { 48 + b } else { 87 + b });
}

/// The escapes of a text end at the quotation mark that closes them: two
/// texts, each escaped, closed and followed by anything, make the same text
/// only where they are the same and what follows is the same.
pub proof fn escaped_is_read_back(a: Seq<char>, rest_a: Seq<char>, b: Seq<char>, rest_b: Seq<char>)
    requires
        escaped(a) + (seq!['"'] + rest_a) == escaped(b) + (seq!['"'] + rest_b),
    ensures
        a == b,
        rest_a == rest_b,
    decreases a.len(),
{
    let quote = seq!['"'];
    let tail_a = quote + rest_a;
    let tail_b = quote + rest_b;
    if a.len() > 0 {
        escaped_from_the_front(a);
        escape_starts_without_quote(a[0]);
    }
    if b.len() > 0 {
        escaped_from_the_front(b);
        escape_starts_without_quote(b[0]);
    }
    assert(tail_a[0] == '"' && tail_b[0] == '"');
    if a.len() == 0 {
        assert(escaped(a) + tail_a =~= tail_a);
        if b.len() > 0 {
            assert((escaped(b) + tail_b)[0] == escape(b[0])[0]);
        } else {
            assert(escaped(b) + tail_b =~= tail_b);
            same_start_same_rest(quote, rest_a, rest_b);
            assert(a =~= b);
        }
    } else {
        if b.len() == 0 {
            assert(escaped(b) + tail_b =~= tail_b);
            assert((escaped(a) + tail_a)[0] == escape(a[0])[0]);
        } else {
            let more_a = escaped(a.drop_first()) + tail_a;
            let more_b = escaped(b.drop_first()) + tail_b;
            assert(escaped(a) + tail_a =~= escape(a[0]) + more_a);
            assert(escaped(b) + tail_b =~= escape(b[0]) + more_b);
            escape_is_read_back(a[0], more_a, b[0], more_b);
            escaped_is_read_back(a.drop_first(), rest_a, b.drop_first(), rest_b);
            assert(a =~= seq![a[0]] + a.drop_first());
            assert(b =~= seq![b[0]] + b.drop_first());
        }
    }
}

/// A string literal ends at the quotation mark that closes it: two literals,
/// each followed by anything, make the same text only where they denote the
/// same text and what follows is the same.
pub proof fn json_string_is_read_back(
    a: Seq<char>,
    rest_a: Seq<char>,
    b: Seq<char>,
    rest_b: Seq<char>,
)
    requires
        json_string(a) + rest_a == json_string(b) + rest_b,
    ensures
        a == b,
        rest_a == rest_b,
{
    let quote = seq!['"'];
    assert(json_string(a) + rest_a =~= quote + (escaped(a) + (quote + rest_a)));
    assert(json_string(b) + rest_b =~= quote + (escaped(b) + (quote + rest_b)));
    same_start_same_rest(quote, escaped(a) + (quote + rest_a), escaped(b) + (quote + rest_b));
    escaped_is_read_back(a, rest_a, b, rest_b);
}

/// The canonical text of a transaction starts with an opening brace.
pub proof fn transaction_text_starts_with_brace(t: TransactionView)
    ensures
        transaction_text(t).len() > 0,
        transaction_text(t)[0] == '{',
{
    reveal_strlit("{\"sender\":");
    let start = "{\"sender\":"@;
    assert(start[0] == '{');
    assert(transaction_text(t)[0] == start[0]);
}

/// The canonical text of a transaction that something follows, part by part.
proof fn transaction_text_followed(t: TransactionView, rest: Seq<char>)
    ensures
        transaction_text(t) + rest == "{\"sender\":"@ + (json_string(t.sender) + (",\"recipient\":"@
            + (json_string(t.recipient) + (",\"amount\":"@ + (signed_decimal(t.amount as int) + ("}"@
            + rest)))))),
{
    let p1 = "{\"sender\":"@;
    let p2 = p1 + json_string(t.sender);
    let p3 = p2 + ",\"recipient\":"@;
    let p4 = p3 + json_string(t.recipient);
    let p5 = p4 + ",\"amount\":"@;
    let p6 = p5 + signed_decimal(t.amount as int);
    let r6 = "}"@ + rest;
    let r5 = signed_decimal(t.amount as int) + r6;
    let r4 = ",\"amount\":"@ + r5;
    let r3 = json_string(t.recipient) + r4;
    let r2 = ",\"recipient\":"@ + r3;
    parts_regroup(p6, "}"@, rest);
    parts_regroup(p5, signed_decimal(t.amount as int), r6);
    parts_regroup(p4, ",\"amount\":"@, r5);
    parts_regroup(p3, json_string(t.recipient), r4);
    parts_regroup(p2, ",\"recipient\":"@, r3);
    parts_regroup(p1, json_string(t.sender), r2);
}

/// The canonical text of a transaction ends where it ends: two such texts,
/// each followed by anything, make the same text only where the
/// transactions hold the same and what follows is the same.
pub proof fn transaction_text_is_read_back(
    a: TransactionView,
    rest_a: Seq<char>,
    b: TransactionView,
    rest_b: Seq<char>,
)
    requires
        transaction_text(a) + rest_a == transaction_text(b) + rest_b,
    ensures
        a == b,
        rest_a == rest_b,
{
    reveal_strlit("}");
    let sender = "{\"sender\":"@;
    let recipient = ",\"recipient\":"@;
    let amount = ",\"amount\":"@;
    let close = "}"@;
    let a6 = close + rest_a;
    let a5 = signed_decimal(a.amount as int) + a6;
    let a4 = amount + a5;
    let a3 = json_string(a.recipient) + a4;
    let a2 = recipient + a3;
    let a1 = json_string(a.sender) + a2;
    let b6 = close + rest_b;
    let b5 = signed_decimal(b.amount as int) + b6;
    let b4 = amount + b5;
    let b3 = json_string(b.recipient) + b4;
    let b2 = recipient + b3;
    let b1 = json_string(b.sender) + b2;
    transaction_text_followed(a, rest_a);
    transaction_text_followed(b, rest_b);
    same_start_same_rest(sender, a1, b1);
    json_string_is_read_back(a.sender, a2, b.sender, b2);
    same_start_same_rest(recipient, a3, b3);
    json_string_is_read_back(a.recipient, a4, b.recipient, b4);
    same_start_same_rest(amount, a5, b5);
    assert(a6[0] == '}' && b6[0] == '}');
    signed_decimal_is_read_back(a.amount as int, a6, b.amount as int, b6);
    same_start_same_rest(close, rest_a, rest_b);
}

/// The canonical text of a list of two or more transactions is the text of
/// the first, a comma, and the text of the list of the others.
pub proof fn transaction_list_from_the_front(list: Seq<TransactionView>)
    requires
        list.len() >= 2,
    ensures
        transaction_list_text(list) == transaction_text(list[0]) + (","@ + transaction_list_text(
            list.drop_first(),
        )),
    decreases list.len(),
{
    let comma = ","@;
    let others = list.drop_first();
    let first = transaction_text(list[0]);
    let last = transaction_text(list.last());
    let before = list.drop_last();
    assert(before[0] == list[0]);
    assert(others.last() == list.last());
    assert(transaction_list_text(list) == (transaction_list_text(before) + comma) + last);
    if list.len() == 2 {
        assert(others[0] == list.last());
        assert(transaction_list_text(before) == first);
        assert(transaction_list_text(others) == last);
        parts_regroup(first, comma, last);
    } else {
        transaction_list_from_the_front(before);
        let middle = transaction_list_text(before.drop_first());
        assert(before.drop_first() =~= others.drop_last());
        assert(transaction_list_text(others) == (middle + comma) + last);
        parts_regroup(first, comma + middle, comma);
        parts_regroup(comma, middle, comma);
        parts_regroup(first, comma + (middle + comma), last);
        parts_regroup(comma, middle + comma, last);
    }
}

/// The canonical text of a list of transactions ends at the bracket that
/// closes it: two such texts, each followed by something that starts with a
/// closing bracket, make the same text only where the lists hold the same
/// and what follows is the same.
pub proof fn transaction_list_is_read_back(
    a: Seq<TransactionView>,
    rest_a: Seq<char>,
    b: Seq<TransactionView>,
    rest_b: Seq<char>,
)
    requires
        transaction_list_text(a) + rest_a == transaction_list_text(b) + rest_b,
        rest_a.len() > 0 && rest_a[0] == ']',
        rest_b.len() > 0 && rest_b[0] == ']',
    ensures
        a == b,
        rest_a == rest_b,
    decreases a.len(),
{
    reveal_strlit(",");
    let comma = ","@;
    let more_a = if a.len() <= 1 {
        rest_a
    } else {
        comma + (transaction_list_text(a.drop_first()) + rest_a)
    };
    let more_b = if b.len() <= 1 {
        rest_b
    } else {
        comma + (transaction_list_text(b.drop_first()) + rest_b)
    };
    if a.len() > 0 {
        transaction_text_starts_with_brace(a[0]);
        if a.len() >= 2 {
            transaction_list_from_the_front(a);
        }
        assert(transaction_list_text(a) + rest_a =~= transaction_text(a[0]) + more_a);
    } else {
        assert(transaction_list_text(a) + rest_a =~= rest_a);
    }
    if b.len() > 0 {
        transaction_text_starts_with_brace(b[0]);
        if b.len() >= 2 {
            transaction_list_from_the_front(b);
        }
        assert(transaction_list_text(b) + rest_b =~= transaction_text(b[0]) + more_b);
    } else {
        assert(transaction_list_text(b) + rest_b =~= rest_b);
    }
    if a.len() == 0 || b.len() == 0 {
        if a.len() > 0 {
            assert((transaction_text(a[0]) + more_a)[0] == '{');
        }
        if b.len() > 0 {
            assert((transaction_text(b[0]) + more_b)[0] == '{');
        }
        assert(a =~= b);
    } else {
        transaction_text_is_read_back(a[0], more_a, b[0], more_b);
        assert(more_a[0] == more_b[0]);
        if a.len() >= 2 {
            assert(more_a[0] == ',');
        }
        if b.len() >= 2 {
            assert(more_b[0] == ',');
        }
        if a.len() >= 2 {
            same_start_same_rest(
                comma,
                transaction_list_text(a.drop_first()) + rest_a,
                transaction_list_text(b.drop_first()) + rest_b,
            );
            transaction_list_is_read_back(a.drop_first(), rest_a, b.drop_first(), rest_b);
        }
        assert(a =~= seq![a[0]] + a.drop_first());
        assert(b =~= seq![b[0]] + b.drop_first());
    }
}

/// The canonical text of a block, part by part.
proof fn block_text_part_by_part(b: BlockView)
    ensures
        block_text(b) == "{\"index\":"@ + (decimal(b.index as nat) + (",\"timestamp\":\""@
            + (b.timestamp.text() + ("\",\"transactions\":["@ + (transaction_list_text(
            b.transactions,
        ) + ("],\"proof\":"@ + (decimal(b.proof as nat) + (",\"previous_hash\":"@ + (json_string(
            b.previous_hash,
        ) + "}"@))))))))),
{
    let p1 = "{\"index\":"@;
    let p2 = p1 + decimal(b.index as nat);
    let p3 = p2 + ",\"timestamp\":\""@;
    let p4 = p3 + b.timestamp.text();
    let p5 = p4 + "\",\"transactions\":["@;
    let p6 = p5 + transaction_list_text(b.transactions);
    let p7 = p6 + "],\"proof\":"@;
    let p8 = p7 + decimal(b.proof as nat);
    let p9 = p8 + ",\"previous_hash\":"@;
    let r9 = json_string(b.previous_hash) + "}"@;
    let r8 = ",\"previous_hash\":"@ + r9;
    let r7 = decimal(b.proof as nat) + r8;
    let r6 = "],\"proof\":"@ + r7;
    let r5 = transaction_list_text(b.transactions) + r6;
    let r4 = "\",\"transactions\":["@ + r5;
    let r3 = b.timestamp.text() + r4;
    let r2 = ",\"timestamp\":\""@ + r3;
    parts_regroup(p9, json_string(b.previous_hash), "}"@);
    parts_regroup(p8, ",\"previous_hash\":"@, r9);
    parts_regroup(p7, decimal(b.proof as nat), r8);
    parts_regroup(p6, "],\"proof\":"@, r7);
    parts_regroup(p5, transaction_list_text(b.transactions), r6);
    parts_regroup(p4, "\",\"transactions\":["@, r5);
    parts_regroup(p3, b.timestamp.text(), r4);
    parts_regroup(p2, ",\"timestamp\":\""@, r3);
    parts_regroup(p1, decimal(b.index as nat), r2);
}

/// The canonical text of a block tells what the block holds: two blocks that
/// carry the same instant have the same canonical text only where they hold
/// the same index, transactions, proof and previous hash.
pub proof fn block_text_is_read_back(a: BlockView, b: BlockView)
    requires
        block_text(a) == block_text(b),
        a.timestamp == b.timestamp,
    ensures
        a == b,
{
    reveal_strlit(",\"timestamp\":\"");
    reveal_strlit("],\"proof\":");
    reveal_strlit(",\"previous_hash\":");
    let index = "{\"index\":"@;
    let timestamp = ",\"timestamp\":\""@;
    let instant = a.timestamp.text();
    let transactions = "\",\"transactions\":["@;
    let proof = "],\"proof\":"@;
    let previous_hash = ",\"previous_hash\":"@;
    let close = "}"@;
    let a9 = json_string(a.previous_hash) + close;
    let a8 = previous_hash + a9;
    let a7 = decimal(a.proof as nat) + a8;
    let a6 = proof + a7;
    let a5 = transaction_list_text(a.transactions) + a6;
    let a4 = transactions + a5;
    let a3 = instant + a4;
    let a2 = timestamp + a3;
    let a1 = decimal(a.index as nat) + a2;
    let b9 = json_string(b.previous_hash) + close;
    let b8 = previous_hash + b9;
    let b7 = decimal(b.proof as nat) + b8;
    let b6 = proof + b7;
    let b5 = transaction_list_text(b.transactions) + b6;
    let b4 = transactions + b5;
    let b3 = instant + b4;
    let b2 = timestamp + b3;
    let b1 = decimal(b.index as nat) + b2;
    block_text_part_by_part(a);
    block_text_part_by_part(b);
    same_start_same_rest(index, a1, b1);
    assert(a2[0] == ',' && b2[0] == ',');
    decimal_is_read_back(a.index as nat, a2, b.index as nat, b2);
    same_start_same_rest(timestamp, a3, b3);
    same_start_same_rest(instant, a4, b4);
    same_start_same_rest(transactions, a5, b5);
    assert(a6[0] == ']' && b6[0] == ']');
    transaction_list_is_read_back(a.transactions, a6, b.transactions, b6);
    same_start_same_rest(proof, a7, b7);
    assert(a8[0] == ',' && b8[0] == ',');
    decimal_is_read_back(a.proof as nat, a8, b.proof as nat, b8);
    same_start_same_rest(previous_hash, a9, b9);
    json_string_is_read_back(a.previous_hash, close, b.previous_hash, close);
}

} // verus!
