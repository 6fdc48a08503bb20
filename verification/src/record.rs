//! The output record of an event: `CONTRACT|<address>|<block ms>|<observed ms>|<latency ms>`.

use crate::event::{ContractCreationEvent, EventView};
use vstd::prelude::*;
use vstd::string::*;

verus! {

/// The digit for a value below sixteen, in lower case.
pub open spec fn hex_digit(value: nat) -> char {
    if value == 0 {
        '0'
    } else if value == 1 {
        '1'
    } else if value == 2 {
        '2'
    } else if value == 3 {
        '3'
    } else if value == 4 {
        '4'
    } else if value == 5 {
        '5'
    } else if value == 6 {
        '6'
    } else if value == 7 {
        '7'
    } else if value == 8 {
        '8'
    } else if value == 9 {
        '9'
    } else if value == 10 {
        'a'
    } else if value == 11 {
        'b'
    } else if value == 12 {
        'c'
    } else if value == 13 {
        'd'
    } else if value == 14 {
        'e'
    } else {
        'f'
    }
}

/// The decimal numeral of `n`, without leading zeros.
pub open spec fn decimal_text(n: nat) -> Seq<char>
    decreases n,
{
    if n < 10 {
        seq![hex_digit(n)]
    } else {
        decimal_text(n / 10).push(hex_digit(n % 10))
    }
}

/// Two lower-case hex digits for each byte, in order.
pub open spec fn hex_text(bytes: Seq<u8>) -> Seq<char>
    decreases bytes.len(),
{
    if bytes.len() == 0 {
        Seq::empty()
    } else {
        hex_text(bytes.drop_last()).push(hex_digit(bytes.last() as nat / 16)).push(
            hex_digit(bytes.last() as nat % 16),
        )
    }
}

/// An address as text: `0x` and the hex digits of its bytes.
pub open spec fn address_text(bytes: Seq<u8>) -> Seq<char> {
    seq!['0', 'x'] + hex_text(bytes)
}

/// The word that opens every record, with its separator.
pub open spec fn record_tag() -> Seq<char> {
    seq!['C', 'O', 'N', 'T', 'R', 'A', 'C', 'T', '|']
}

/// The record of one event.
pub open spec fn record_line(event: EventView) -> Seq<char> {
    record_tag() + address_text(event.contract_address) + seq!['|'] + decimal_text(
        event.block_timestamp_ms,
    ) + seq!['|'] + decimal_text(event.observed_at_ms) + seq!['|'] + decimal_text(
        event.latency_ms,
    )
}

/// The lines joined by a line feed between each two.
pub open spec fn join_lines(lines: Seq<Seq<char>>) -> Seq<char>
    decreases lines.len(),
{
    if lines.len() == 0 {
        Seq::empty()
    } else if lines.len() == 1 {
        lines[0]
    } else {
        join_lines(lines.drop_last()) + seq!['\n'] + lines.last()
    }
}

/// The views of a sequence of events.
pub open spec fn views_of(events: Seq<ContractCreationEvent>) -> Seq<EventView> {
    Seq::new(events.len(), |i: int| events[i]@)
}

/// The records of a sequence of events, one line each, in order.
pub open spec fn records_of(events: Seq<EventView>) -> Seq<Seq<char>> {
    Seq::new(events.len(), |i: int| record_line(events[i]))
}

/// What one write of a batch of events holds.
pub open spec fn batch_text(events: Seq<EventView>) -> Seq<char> {
    join_lines(records_of(events))
}

fn digit_text(value: u8) -> (text: &'static str)
    requires
        value < 16,
    ensures
        text@ == seq![hex_digit(value as nat)],
{
    proof {
        reveal_strlit("0");
        reveal_strlit("1");
        reveal_strlit("2");
        reveal_strlit("3");
        reveal_strlit("4");
        reveal_strlit("5");
        reveal_strlit("6");
        reveal_strlit("7");
        reveal_strlit("8");
        reveal_strlit("9");
        reveal_strlit("a");
        reveal_strlit("b");
        reveal_strlit("c");
        reveal_strlit("d");
        reveal_strlit("e");
        reveal_strlit("f");
    }
    let text = match value {
        0 => "0",
        1 => "1",
        2 => "2",
        3 => "3",
        4 => "4",
        5 => "5",
        6 => "6",
        7 => "7",
        8 => "8",
        9 => "9",
        10 => "a",
        11 => "b",
        12 => "c",
        13 => "d",
        14 => "e",
        _ => "f",
    };
    assert(text@ =~= seq![hex_digit(value as nat)]);
    text
}

/// Appends the decimal numeral of `n`.
pub fn push_decimal(out: &mut String, n: u64)
    ensures
        final(out)@ == old(out)@ + decimal_text(n as nat),
    decreases n,
{
    if n >= 10 {
        push_decimal(out, n / 10);
    }
    out.append(digit_text((n % 10) as u8));
    assert(out@ =~= old(out)@ + decimal_text(n as nat));
}

/// Appends the hex digits of `bytes`.
pub fn push_hex(out: &mut String, bytes: &[u8])
    ensures
        final(out)@ == old(out)@ + hex_text(bytes@),
{
    let mut i: usize = 0;
    assert(bytes@.take(0) =~= Seq::<u8>::empty());
    while i < bytes.len()
        invariant
            i <= bytes.len(),
            out@ == old(out)@ + hex_text(bytes@.take(i as int)),
        decreases bytes.len() - i,
    {
        let byte = bytes[i];
        proof {
            let next = bytes@.take(i + 1);
            assert(next.drop_last() =~= bytes@.take(i as int));
            assert(next.last() == byte);
        }
        out.append(digit_text(byte / 16));
        out.append(digit_text(byte % 16));
        i += 1;
        assert(out@ =~= old(out)@ + hex_text(bytes@.take(i as int)));
    }
    assert(bytes@.take(i as int) =~= bytes@);
}

impl ContractCreationEvent {
    /// The event's record, without a line end.
    pub fn to_record(&self) -> (line: String)
        ensures
            line@ == record_line(self@),
    {
        let mut line = String::new();
        self.push_record(&mut line);
        line
    }

    /// Appends the event's record to `out`.
    pub fn push_record(&self, out: &mut String)
        ensures
            final(out)@ == old(out)@ + record_line(self@),
    {
        proof {
            reveal_strlit("CONTRACT|0x");
            reveal_strlit("|");
        }
        let address = self.contract_address();
        out.append("CONTRACT|0x");
        push_hex(out, address.bytes.as_slice());
        out.append("|");
        push_decimal(out, self.block_timestamp_ms());
        out.append("|");
        push_decimal(out, self.observed_at_ms());
        out.append("|");
        push_decimal(out, self.latency_ms());
        assert("CONTRACT|0x"@ =~= record_tag() + seq!['0', 'x']);
        assert("|"@ =~= seq!['|']);
        assert(out@ =~= old(out)@ + record_line(self@));
    }
}

/// Adding one event adds its view.
pub proof fn lemma_views_push(events: Seq<ContractCreationEvent>, event: ContractCreationEvent)
    ensures
        views_of(events.push(event)) == views_of(events).push(event@),
{
    assert(views_of(events.push(event)) =~= views_of(events).push(event@));
}

/// The text of a batch with one more event: the event's record, after a line
/// feed where the batch was not empty.
pub proof fn lemma_batch_text_push(events: Seq<EventView>, event: EventView)
    ensures
        batch_text(events.push(event)) == if events.len() == 0 {
            record_line(event)
        } else {
            batch_text(events) + seq!['\n'] + record_line(event)
        },
{
    let lines = records_of(events.push(event));
    assert(lines.last() == record_line(event));
    assert(lines.drop_last() =~= records_of(events));
    if events.len() == 0 {
        assert(lines[0] == record_line(event));
    }
}

/// The records of `events`, joined by line feeds: what one write of the batch
/// holds.
pub fn render_batch(events: &Vec<ContractCreationEvent>) -> (text: String)
    ensures
        text@ == batch_text(views_of(events@)),
{
    let mut text = String::new();
    let mut i: usize = 0;
    assert(views_of(events@.take(0)) =~= Seq::<EventView>::empty());
    while i < events.len()
        invariant
            i <= events.len(),
            text@ == batch_text(views_of(events@.take(i as int))),
        decreases events.len() - i,
    {
        proof {
            reveal_strlit("\n");
            assert(events@.take(i + 1) =~= events@.take(i as int).push(events@[i as int]));
            lemma_views_push(events@.take(i as int), events@[i as int]);
            lemma_batch_text_push(views_of(events@.take(i as int)), events@[i as int]@);
        }
        if i > 0 {
            text.append("\n");
        }
        events[i].push_record(&mut text);
        i += 1;
        assert(text@ =~= batch_text(views_of(events@.take(i as int))));
    }
    assert(events@.take(i as int) =~= events@);
    text
}

} // verus!
