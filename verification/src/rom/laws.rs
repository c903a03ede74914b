//! that decompressing code undoes compressing it, whatever was made of the
//! code.

use crate::bytes;
use crate::rom;
use crate::rom::Unpacking;
use vstd::prelude::*;

verus! {

/// one step of writing code from its end towards its start.
pub enum Piece {
    /// a byte as it is.
    Literal(u8),
    /// length bytes, each of them the one that is gap bytes past the next.
    Run { length: nat, gap: nat },
}

/// tail with length bytes in front, each a copy of the byte gap past the one
/// it goes before.
pub open spec fn repeated(tail: Seq<u8>, length: nat, gap: nat) -> Seq<u8>
    decreases length,
{
    if length == 0 {
        tail
    } else {
        repeated(seq![tail[gap as int]] + tail, (length - 1) as nat, gap)
    }
}

impl Piece {
    /// tail with the piece in front of it.
    pub open spec fn before(self, tail: Seq<u8>) -> Seq<u8> {
        match self {
            Piece::Literal(byte) => seq![byte] + tail,
            Piece::Run { length, gap } => repeated(tail, length, gap),
        }
    }

    /// the piece can be written in front of tail.
    pub open spec fn fits(self, tail: Seq<u8>) -> bool {
        match self {
            Piece::Literal(_) => true,
            Piece::Run { length, gap } => 3 <= length <= 18 && 2 <= gap <= 0x1001 && gap
                < tail.len(),
        }
    }

    /// the bytes that stand for the piece. a run is a number of 16 bits, the
    /// high four how much longer it is than three and the others how much
    /// further its gap goes than two.
    pub open spec fn packed(self) -> Seq<u8> {
        match self {
            Piece::Literal(byte) => seq![byte],
            Piece::Run { length, gap } => {
                let pair = (length - 3) * 0x1000 + (gap - 2);
                seq![(pair % 0x100) as u8, (pair / 0x100) as u8]
            },
        }
    }
}

/// tail with the pieces in front of it, the first of them next to it.
pub open spec fn expanded(tail: Seq<u8>, pieces: Seq<Piece>) -> Seq<u8>
    decreases pieces.len(),
{
    if pieces.len() == 0 {
        tail
    } else {
        expanded(pieces[0].before(tail), pieces.skip(1))
    }
}

/// the pieces can be written in front of tail.
pub open spec fn all_fit(tail: Seq<u8>, pieces: Seq<Piece>) -> bool
    decreases pieces.len(),
{
    pieces.len() == 0 || (pieces[0].fits(tail) && all_fit(pieces[0].before(tail), pieces.skip(1)))
}

/// the pieces of one group, the first at the high end.
pub open spec fn group_bytes(pieces: Seq<Piece>) -> Seq<u8>
    decreases pieces.len(),
{
    if pieces.len() == 0 {
        Seq::empty()
    } else {
        group_bytes(pieces.skip(1)) + pieces[0].packed()
    }
}

/// the byte that tells runs from literals, the highest bit for the first.
pub open spec fn control(pieces: Seq<Piece>) -> nat
    decreases pieces.len(),
{
    if pieces.len() == 0 {
        0
    } else {
        (if pieces[0] is Run {
            128nat
        } else {
            0nat
        }) + control(pieces.skip(1)) / 2
    }
}

/// how many of the pieces go in the next group.
pub open spec fn group_size(pieces: Seq<Piece>) -> nat {
    if pieces.len() < 8 {
        pieces.len()
    } else {
        8
    }
}

/// pieces as compressed code has them, in groups of eight with what tells them
/// apart above them, the first group at the high end.
pub open spec fn stream(pieces: Seq<Piece>) -> Seq<u8>
    decreases pieces.len(),
{
    if pieces.len() == 0 {
        Seq::empty()
    } else {
        let size = group_size(pieces) as int;
        stream(pieces.skip(size)) + group_bytes(pieces.take(size)) + seq![
            control(pieces.take(size)) as u8,
        ]
    }
}

/// compressed code. what is not compressed comes first, and at the end, after
/// padding, is how big the padding and what follows it are, how far back the
/// compressed part starts, and how many bytes the code is bigger than this.
pub open spec fn packed(
    prefix: Seq<u8>,
    pieces: Seq<Piece>,
    padding: Seq<u8>,
    extra: u32,
) -> Seq<u8> {
    let footer = padding.len() + 8;
    prefix + stream(pieces) + padding + bytes::le_bytes(
        (footer * 0x100_0000 + stream(pieces).len() + footer) as u32,
    ) + bytes::le_bytes(extra)
}

/// a run is in front of what was there, and each of its bytes is the one that
/// is one more than the gap past it.
pub proof fn law_runs_repeat(tail: Seq<u8>, length: nat, gap: nat)
    requires
        gap < tail.len(),
    ensures
        repeated(tail, length, gap).len() == length + tail.len(),
        repeated(tail, length, gap).skip(length as int) == tail,
        forall|i: int|
            0 <= i < length ==> #[trigger] repeated(tail, length, gap)[i] == repeated(
                tail,
                length,
                gap,
            )[i + gap + 1],
    decreases length,
{
    let after = repeated(tail, length, gap);
    if length > 0 {
        let next = seq![tail[gap as int]] + tail;
        law_runs_repeat(next, (length - 1) as nat, gap);
        assert(after.skip(length - 1) == next);
        assert(after.skip(length as int) =~= next.skip(1));
        assert(next.skip(1) =~= tail);
        assert forall|i: int| 0 <= i < length implies #[trigger] after[i] == after[i + gap
            + 1] by {
            if i == length - 1 {
                assert(after[i] == after.skip(length - 1)[0]);
                assert(after[i + gap + 1] == after.skip(length as int)[gap as int]);
            }
        }
    } else {
        assert(after.skip(0) =~= tail);
    }
}

proof fn lemma_expanded_grows(tail: Seq<u8>, pieces: Seq<Piece>)
    requires
        all_fit(tail, pieces),
    ensures
        expanded(tail, pieces).len() >= tail.len() + pieces.len(),
    decreases pieces.len(),
{
    if pieces.len() > 0 {
        if let Piece::Run { length, gap } = pieces[0] {
            law_runs_repeat(tail, length, gap);
        }
        lemma_expanded_grows(pieces[0].before(tail), pieces.skip(1));
    }
}

proof fn lemma_expanded_split(tail: Seq<u8>, pieces: Seq<Piece>, count: nat)
    requires
        count <= pieces.len(),
    ensures
        expanded(tail, pieces) == expanded(
            expanded(tail, pieces.take(count as int)),
            pieces.skip(count as int),
        ),
        all_fit(tail, pieces) ==> all_fit(tail, pieces.take(count as int)) && all_fit(
            expanded(tail, pieces.take(count as int)),
            pieces.skip(count as int),
        ),
    decreases count,
{
    let head = pieces.take(count as int);
    if count == 0 {
        assert(pieces.skip(0) =~= pieces);
    } else {
        lemma_expanded_split(pieces[0].before(tail), pieces.skip(1), (count - 1) as nat);
        assert(pieces.skip(1).take(count - 1) =~= head.skip(1));
        assert(pieces.skip(1).skip(count - 1) =~= pieces.skip(count as int));
        assert(head[0] == pieces[0]);
    }
}

/// value can be halved that many times.
spec fn halves(value: nat, times: nat) -> bool
    decreases times,
{
    times == 0 || (value % 2 == 0 && halves(value / 2, (times - 1) as nat))
}

proof fn lemma_halves_add(a: nat, b: nat, times: nat)
    requires
        halves(a, times),
        halves(b, times),
    ensures
        halves(a + b, times),
    decreases times,
{
    if times > 0 {
        lemma_halves_add(a / 2, b / 2, (times - 1) as nat);
        assert((a + b) / 2 == a / 2 + b / 2);
    }
}

proof fn lemma_control(pieces: Seq<Piece>)
    requires
        pieces.len() <= 8,
    ensures
        control(pieces) < 256,
        halves(control(pieces), (8 - pieces.len()) as nat),
    decreases pieces.len(),
{
    reveal_with_fuel(halves, 10);
    if pieces.len() > 0 {
        let rest = pieces.skip(1);
        lemma_control(rest);
        let times = (8 - pieces.len()) as nat;
        assert(halves(control(rest) / 2, times));
        assert(halves(128, times));
        assert(halves(0, times));
        lemma_halves_add(
            if pieces[0] is Run {
                128nat
            } else {
                0nat
            },
            control(rest) / 2,
            times,
        );
    }
}

proof fn lemma_control_bits(control: u8)
    by (bit_vector)
    ensures
        control & 0x80 != 0 <==> control >= 128,
        (control << 1) as int == (control * 2) % 256,
{
}

proof fn lemma_pair_fields(pair: u16)
    by (bit_vector)
    ensures
        (pair >> 12) as int == pair / 0x1000,
        (pair & 0xFFF) as int == pair % 0x1000,
{
}

proof fn lemma_run(out: Seq<u8>, cursor: int, length: nat, gap: nat)
    requires
        length <= cursor <= out.len(),
        gap < out.len() - cursor,
    ensures
        rom::run_copied(out, cursor, length, gap as int) == Some(
            out.take(cursor - length) + repeated(out.skip(cursor), length, gap),
        ),
    decreases length,
{
    let tail = out.skip(cursor);
    if length == 0 {
        assert(out.take(cursor) + tail =~= out);
    } else {
        let next = out.update(cursor - 1, out[cursor + gap]);
        lemma_run(next, cursor - 1, (length - 1) as nat, gap);
        assert(next.skip(cursor - 1) =~= seq![tail[gap as int]] + tail);
        assert(next.take(cursor - length) =~= out.take(cursor - length));
    }
}

/// one piece is read back from where it stands.
proof fn lemma_piece(file: Seq<u8>, at: Unpacking, piece: Piece)
    requires
        0 <= at.cursor <= at.out.len(),
        piece.packed().len() <= at.index <= file.len(),
        file.subrange(at.index - piece.packed().len(), at.index) == piece.packed(),
        piece.fits(at.out.skip(at.cursor)),
        piece.before(at.out.skip(at.cursor)).len() <= at.out.len(),
    ensures
        ({
            let code = piece.before(at.out.skip(at.cursor));
            let cursor = at.out.len() - code.len();
            let next = Unpacking {
                out: at.out.take(cursor) + code,
                index: at.index - piece.packed().len(),
                cursor,
            };
            match piece {
                Piece::Literal(_) => rom::literal_unpacked(file, at) == next,
                Piece::Run { .. } => rom::run_unpacked(file, at) == Ok::<Unpacking, Seq<char>>(
                    next,
                ),
            }
        }),
{
    let packed = piece.packed();
    let start = at.index - packed.len();
    let tail = at.out.skip(at.cursor);
    assert(forall|i: int| 0 <= i < packed.len() ==> #[trigger] packed[i] == file[start + i]);
    match piece {
        Piece::Literal(byte) => {
            assert(packed[0] == byte);
            let next = rom::literal_unpacked(file, at);
            assert(next.out =~= at.out.take(at.cursor - 1) + (seq![byte] + tail));
        },
        Piece::Run { length, gap } => {
            let number = (length - 3) * 0x1000 + (gap - 2);
            assert(packed[0] == file[start] && packed[1] == file[start + 1]);
            let pair = bytes::le16(file, at.index - 2);
            assert(pair == number);
            lemma_pair_fields(pair);
            assert(pair / 0x1000 == length - 3);
            assert(pair % 0x1000 == gap - 2);
            law_runs_repeat(tail, length, gap);
            lemma_run(at.out, at.cursor, length, gap);
        },
    }
}

/// a group is read back from where it stands.
proof fn lemma_group(file: Seq<u8>, stop: int, pieces: Seq<Piece>, left: nat, at: Unpacking)
    requires
        pieces.len() <= left <= 8,
        0 <= at.cursor <= at.out.len(),
        0 <= stop <= at.index - group_bytes(pieces).len(),
        at.index <= file.len(),
        file.subrange(at.index - group_bytes(pieces).len(), at.index) == group_bytes(pieces),
        pieces.len() == left || at.index - group_bytes(pieces).len() == stop,
        all_fit(at.out.skip(at.cursor), pieces),
        expanded(at.out.skip(at.cursor), pieces).len() <= at.out.len(),
    ensures
        ({
            let code = expanded(at.out.skip(at.cursor), pieces);
            let cursor = at.out.len() - code.len();
            rom::group_unpacked(file, stop, control(pieces) as u8, left, at) == Ok::<
                Unpacking,
                Seq<char>,
            >(
                Unpacking {
                    out: at.out.take(cursor) + code,
                    index: at.index - group_bytes(pieces).len(),
                    cursor,
                },
            )
        }),
    decreases pieces.len(),
{
    let tail = at.out.skip(at.cursor);
    lemma_control(pieces);
    if pieces.len() == 0 {
        assert(at.out.take(at.cursor) + tail =~= at.out);
    } else {
        let piece = pieces[0];
        let rest = pieces.skip(1);
        let code = piece.before(tail);
        let packed = piece.packed();
        let all = group_bytes(pieces);
        lemma_expanded_grows(tail, pieces);
        lemma_expanded_grows(code, rest);
        let low = at.index - all.len();
        assert(all == group_bytes(rest) + packed);
        assert(file.subrange(at.index - packed.len(), at.index) =~= packed) by {
            assert forall|i: int| 0 <= i < packed.len() implies file[at.index - packed.len() + i]
                == packed[i] by {
                assert(all[group_bytes(rest).len() + i] == packed[i]);
                assert(file.subrange(low, at.index)[group_bytes(rest).len() + i] == packed[i]);
            }
        }
        lemma_piece(file, at, piece);
        let cursor = at.out.len() - code.len();
        let next = Unpacking {
            out: at.out.take(cursor) + code,
            index: at.index - packed.len(),
            cursor,
        };
        assert(next.out.skip(cursor) =~= code);
        assert(file.subrange(low, next.index) =~= group_bytes(rest)) by {
            assert forall|i: int| 0 <= i < group_bytes(rest).len() implies file[low + i]
                == group_bytes(rest)[i] by {
                assert(file.subrange(low, at.index)[i] == all[i]);
            }
        }
        lemma_group(file, stop, rest, (left - 1) as nat, next);
        let first = control(pieces) as u8;
        lemma_control_bits(first);
        lemma_control(rest);
        reveal_with_fuel(halves, 2);
        assert((first << 1) == control(rest) as u8);
        let whole = expanded(code, rest);
        assert(next.out.take(at.out.len() - whole.len()) =~= at.out.take(
            at.out.len() - whole.len(),
        ));
    }
}

/// every group is read back.
proof fn lemma_stream(file: Seq<u8>, stop: int, pieces: Seq<Piece>, at: Unpacking)
    requires
        0 <= at.cursor <= at.out.len(),
        0 <= stop,
        at.index == stop + stream(pieces).len(),
        at.index <= file.len(),
        file.subrange(stop, at.index) == stream(pieces),
        all_fit(at.out.skip(at.cursor), pieces),
        expanded(at.out.skip(at.cursor), pieces).len() <= at.out.len(),
    ensures
        ({
            let code = expanded(at.out.skip(at.cursor), pieces);
            rom::unpacked(file, stop, at) == Ok::<Seq<u8>, Seq<char>>(
                at.out.take(at.out.len() - code.len()) + code,
            )
        }),
    decreases pieces.len(),
{
    let tail = at.out.skip(at.cursor);
    if pieces.len() == 0 {
        assert(at.out.take(at.cursor) + tail =~= at.out);
    } else {
        let size = group_size(pieces);
        let group = pieces.take(size as int);
        let rest = pieces.skip(size as int);
        let all = stream(pieces);
        let below = stream(rest);
        let middle = group_bytes(group);
        lemma_expanded_split(tail, pieces, size);
        let code = expanded(tail, group);
        lemma_expanded_grows(tail, group);
        lemma_expanded_grows(code, rest);
        lemma_control(group);
        assert forall|i: int| 0 <= i < all.len() implies file[stop + i] == all[i] by {
            assert(file.subrange(stop, at.index)[i] == all[i]);
        }
        assert(all == below + middle + seq![control(group) as u8]);
        assert(file[at.index - 1] == control(group) as u8) by {
            assert(all[all.len() - 1] == control(group) as u8);
        }
        let first = Unpacking { index: at.index - 1, ..at };
        assert(file.subrange(first.index - middle.len(), first.index) =~= middle) by {
            assert forall|i: int| 0 <= i < middle.len() implies file[first.index - middle.len()
                + i] == middle[i] by {
                assert(all[below.len() + i] == middle[i]);
                assert(file[stop + (below.len() + i)] == all[below.len() + i]);
            }
        }
        assert(size < 8 ==> rest.len() == 0);
        assert(rest.len() == 0 ==> below.len() == 0);
        lemma_group(file, stop, group, 8, first);
        let cursor = at.out.len() - code.len();
        let next = Unpacking {
            out: at.out.take(cursor) + code,
            index: first.index - middle.len(),
            cursor,
        };
        assert(next.out.skip(cursor) =~= code);
        assert(file.subrange(stop, next.index) =~= below) by {
            assert forall|i: int| 0 <= i < below.len() implies file[stop + i] == below[i] by {
                assert(all[i] == below[i]);
            }
        }
        lemma_stream(file, stop, rest, next);
        let whole = expanded(code, rest);
        assert(next.out.take(at.out.len() - whole.len()) =~= at.out.take(
            at.out.len() - whole.len(),
        ));
    }
}

proof fn lemma_footer(footer: u32)
    by (bit_vector)
    ensures
        (footer >> 24) as int == footer / 0x100_0000,
        (footer & 0x00FF_FFFF) as int == footer % 0x100_0000,
{
}

proof fn lemma_word_in(front: Seq<u8>, value: u32, rest: Seq<u8>)
    ensures
        bytes::le32(front + bytes::le_bytes(value) + rest, front.len() as int) == value,
{
    let low = bytes::le_bytes(value);
    let all = front + low + rest;
    let at = front.len() as int;
    assert(all[at] == low[0]);
    assert(all[at + 1] == low[1]);
    assert(all[at + 2] == low[2]);
    assert(all[at + 3] == low[3]);
}

/// the parts of compressed code are where they are looked for.
proof fn lemma_packed(prefix: Seq<u8>, pieces: Seq<Piece>, padding: Seq<u8>, extra: u32)
    requires
        padding.len() + 8 <= 0xFF,
        stream(pieces).len() + padding.len() + 8 <= 0x00FF_FFFF,
    ensures
        ({
            let file = packed(prefix, pieces, padding, extra);
            let size = file.len() as int;
            let footer = bytes::le32(file, size - 8);
            &&& size == prefix.len() + stream(pieces).len() + padding.len() + 8
            &&& footer >> 24 == padding.len() + 8
            &&& footer & 0x00FF_FFFF == stream(pieces).len() + padding.len() + 8
            &&& bytes::le32(file, size - 4) == extra
            &&& file.take(prefix.len() as int) == prefix
            &&& file.subrange(prefix.len() as int, size - padding.len() - 8) == stream(pieces)
        }),
{
    let file = packed(prefix, pieces, padding, extra);
    let all = stream(pieces);
    let footer_size = padding.len() + 8;
    let front = prefix + all + padding;
    let number = (footer_size * 0x100_0000 + all.len() + footer_size) as u32;
    lemma_word_in(front, number, bytes::le_bytes(extra));
    let before = front + bytes::le_bytes(number);
    lemma_word_in(before, extra, Seq::empty());
    assert(before + bytes::le_bytes(extra) + Seq::<u8>::empty() =~= file);
    assert(file == front + bytes::le_bytes(number) + bytes::le_bytes(extra));
    lemma_footer(number);
    assert(number / 0x100_0000 == footer_size);
    assert(number % 0x100_0000 == all.len() + footer_size);
    assert(file.take(prefix.len() as int) =~= prefix);
    assert(file.subrange(prefix.len() as int, (prefix.len() + all.len()) as int) =~= all);
}

/// decompressing undoes compressing. whatever literals and runs the code was
/// compressed into, they come out at the end, and what is before them is what
/// was there, with zeros past it.
pub proof fn law_decompressing_undoes_compressing(
    prefix: Seq<u8>,
    pieces: Seq<Piece>,
    padding: Seq<u8>,
    extra: u32,
)
    requires
        all_fit(Seq::empty(), pieces),
        padding.len() + 8 <= 0xFF,
        stream(pieces).len() + padding.len() + 8 <= 0x00FF_FFFF,
        expanded(Seq::empty(), pieces).len() <= packed(prefix, pieces, padding, extra).len()
            + extra,
    ensures
        ({
            let file = packed(prefix, pieces, padding, extra);
            let code = expanded(Seq::empty(), pieces);
            let bare = file + Seq::new(extra as nat, |i: int| 0u8);
            &&& rom::decompressed(file) == Ok::<Seq<u8>, Seq<char>>(
                bare.take(bare.len() - code.len()) + code,
            )
            &&& bare.len() == prefix.len() + code.len() ==> rom::decompressed(file) == Ok::<
                Seq<u8>,
                Seq<char>,
            >(prefix + code)
        }),
{
    let file = packed(prefix, pieces, padding, extra);
    let code = expanded(Seq::empty(), pieces);
    let bare = file + Seq::new(extra as nat, |i: int| 0u8);
    let size = file.len() as int;
    lemma_packed(prefix, pieces, padding, extra);
    let stop = prefix.len() as int;
    let at = Unpacking {
        out: bare,
        index: size - padding.len() - 8,
        cursor: bare.len() as int,
    };
    assert(bare.skip(at.cursor) =~= Seq::empty());
    lemma_stream(file, stop, pieces, at);
    assert(rom::unpacked_size(file) == bare.len());
    if bare.len() == prefix.len() + code.len() {
        assert(bare.take(prefix.len() as int) =~= prefix) by {
            assert(file.take(prefix.len() as int) == prefix);
            assert(bare.take(prefix.len() as int) =~= file.take(prefix.len() as int));
        }
    }
}

} // verus!
