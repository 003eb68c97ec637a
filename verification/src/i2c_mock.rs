//! A mock I2C bus device that models the display RAM of the HT16K33.
//!
//! Writes and reads of the display RAM start at a row address and wrap around to row 0 after the
//! last row.
use vstd::prelude::*;
use vstd::arithmetic::div_mod::{lemma_fundamental_div_mod, lemma_fundamental_div_mod_converse};

use crate::constants::ROWS_SIZE;
use crate::types::dimming::Dimming;
use crate::types::display::Display;
use crate::types::oscillator::Oscillator;

verus! {

broadcast use vstd::array::group_array_axioms;

/// The memory `mem` after `data` is written to it byte by byte, the first byte to cell `offset`
/// and each next byte to the next cell, wrapping around to cell 0 after the last cell.
pub open spec fn wrapping_write(mem: Seq<u8>, data: Seq<u8>, offset: int) -> Seq<u8>
    decreases data.len(),
{
    if data.len() == 0 {
        mem
    } else {
        wrapping_write(mem, data.drop_last(), offset).update(
            (offset + data.len() - 1) % (mem.len() as int),
            data.last(),
        )
    }
}

/// The `len` bytes read from `mem`, the first from cell `offset` and each next one from the next
/// cell, wrapping around to cell 0 after the last cell.
pub open spec fn wrapping_read(mem: Seq<u8>, offset: int, len: nat) -> Seq<u8> {
    Seq::new(len, |k: int| mem[(offset + k) % (mem.len() as int)])
}

/// The cell that byte `k` of a wrapping access starting at cell `offset` of an `n`-cell memory
/// lands on.
pub open spec fn wrap_cell(offset: int, k: int, n: int) -> int {
    (offset + k) % n
}

/// Stepping one cell forward from `x % n` wraps to 0 after `n - 1`.
proof fn lemma_mod_succ(x: int, n: int)
    requires
        0 <= x,
        0 < n,
    ensures
        0 <= x % n < n,
        (x + 1) % n == if x % n + 1 == n { 0 } else { x % n + 1 },
{
    lemma_fundamental_div_mod(x, n);
    let q = x / n;
    let r = x % n;
    assert(0 <= r < n) by {
        vstd::arithmetic::div_mod::lemma_mod_pos_bound(x, n);
    }
    assert(x == q * n + r) by (nonlinear_arith)
        requires
            x == n * q + r,
    ;
    if r + 1 == n {
        assert(x + 1 == (q + 1) * n + 0) by (nonlinear_arith)
            requires
                x == q * n + r,
                r + 1 == n,
        ;
        lemma_fundamental_div_mod_converse(x + 1, n, q + 1, 0);
    } else {
        lemma_fundamental_div_mod_converse(x + 1, n, q, r + 1);
    }
}

/// Two distinct non-negative numbers with the same residue modulo `n` are at least `n` apart.
proof fn lemma_same_residue_apart(a: int, b: int, n: int)
    requires
        0 <= a < b,
        0 < n,
        a % n == b % n,
    ensures
        b - a >= n,
{
    lemma_fundamental_div_mod(a, n);
    lemma_fundamental_div_mod(b, n);
    let qa = a / n;
    let qb = b / n;
    assert(b - a >= n) by (nonlinear_arith)
        requires
            a == n * qa + a % n,
            b == n * qb + b % n,
            a % n == b % n,
            a < b,
            0 < n,
    ;
}

/// Writing keeps the size of the memory.
pub proof fn lemma_wrapping_write_len(mem: Seq<u8>, data: Seq<u8>, offset: int)
    requires
        mem.len() > 0,
        0 <= offset,
    ensures
        wrapping_write(mem, data, offset).len() == mem.len(),
    decreases data.len(),
{
    if data.len() > 0 {
        lemma_wrapping_write_len(mem, data.drop_last(), offset);
        lemma_mod_succ(offset + data.len() - 1, mem.len() as int);
    }
}

/// A cell holds the last byte written to it: byte `k` of `data` stays in its cell when no later
/// byte wraps around onto the same cell.
pub proof fn lemma_wrapping_write_last_wins(mem: Seq<u8>, data: Seq<u8>, offset: int, k: int)
    requires
        mem.len() > 0,
        0 <= offset,
        0 <= k < data.len(),
        data.len() <= k + mem.len(),
    ensures
        wrapping_write(mem, data, offset)[(offset + k) % (mem.len() as int)] == data[k],
    decreases data.len(),
{
    let n = mem.len() as int;
    let len = data.len() as int;
    lemma_wrapping_write_len(mem, data.drop_last(), offset);
    lemma_mod_succ(offset + k, n);
    lemma_mod_succ(offset + len - 1, n);
    if k < len - 1 {
        lemma_wrapping_write_last_wins(mem, data.drop_last(), offset, k);
        if (offset + k) % n == (offset + len - 1) % n {
            lemma_same_residue_apart(offset + k, offset + len - 1, n);
        }
    }
}

/// A cell that no byte of `data` is written to keeps its contents.
pub proof fn lemma_wrapping_write_untouched(mem: Seq<u8>, data: Seq<u8>, offset: int, i: int)
    requires
        0 <= i < mem.len(),
        0 <= offset,
        forall|k: int| 0 <= k < data.len() ==> #[trigger] wrap_cell(offset, k, mem.len() as int) != i,
    ensures
        wrapping_write(mem, data, offset)[i] == mem[i],
    decreases data.len(),
{
    if data.len() > 0 {
        lemma_wrapping_write_len(mem, data.drop_last(), offset);
        assert(wrap_cell(offset, data.len() - 1, mem.len() as int) != i);
        lemma_mod_succ(offset + data.len() - 1, mem.len() as int);
        lemma_wrapping_write_untouched(mem, data.drop_last(), offset, i);
    }
}

/// Reading back what was written: at most one memory's worth of bytes written from a start cell
/// reads back unchanged from the same start cell.
pub proof fn lemma_read_back_written(mem: Seq<u8>, data: Seq<u8>, offset: int)
    requires
        mem.len() > 0,
        0 <= offset,
        data.len() <= mem.len(),
    ensures
        wrapping_read(wrapping_write(mem, data, offset), offset, data.len()) == data,
{
    let written = wrapping_write(mem, data, offset);
    let read = wrapping_read(written, offset, data.len());
    lemma_wrapping_write_len(mem, data, offset);
    assert forall|k: int| 0 <= k < data.len() implies read[k] == data[k] by {
        lemma_wrapping_write_last_wins(mem, data, offset, k);
    }
    assert(read =~= data);
}

/// Copies `src` into `dst` starting at index `offset`, wrapping around to index 0 when the end of
/// `dst` is reached.
pub fn copy_to_wrapping_with_offset(src: &[u8], dst: &mut [u8], offset: usize)
    requires
        offset <= old(dst)@.len(),
        old(dst)@.len() > 0 || src@.len() == 0,
    ensures
        final(dst)@ == wrapping_write(old(dst)@, src@, offset as int),
{
    let n = dst.len();
    if src.len() == 0 {
        return;
    }
    let mut pos: usize = if offset == n { 0 } else { offset };
    proof {
        lemma_mod_succ(offset as int, n as int);
        if offset == n {
            lemma_fundamental_div_mod_converse(offset as int, n as int, 1, 0);
        } else {
            lemma_fundamental_div_mod_converse(offset as int, n as int, 0, offset as int);
        }
    }
    let mut k: usize = 0;
    while k < src.len()
        invariant
            n == dst@.len(),
            n == old(dst)@.len(),
            0 < n,
            k <= src@.len(),
            pos < n,
            pos as int == (offset + k) % (n as int),
            dst@ == wrapping_write(old(dst)@, src@.subrange(0, k as int), offset as int),
        decreases src@.len() - k,
    {
        dst[pos] = src[k];
        proof {
            let done = src@.subrange(0, k + 1);
            assert(done.drop_last() =~= src@.subrange(0, k as int));
            lemma_mod_succ(offset + k, n as int);
        }
        pos = if pos + 1 == n { 0 } else { pos + 1 };
        k = k + 1;
    }
    proof {
        assert(src@.subrange(0, src@.len() as int) =~= src@);
    }
}

/// Fills `dst` from `src` starting at index `offset`, wrapping around to index 0 when the end of
/// `src` is reached.
pub fn copy_from_wrapping_with_offset(dst: &mut [u8], src: &[u8], offset: usize)
    requires
        offset <= src@.len(),
        src@.len() > 0 || old(dst)@.len() == 0,
    ensures
        final(dst)@ == wrapping_read(src@, offset as int, old(dst)@.len()),
{
    let n = src.len();
    let len = dst.len();
    if len == 0 {
        proof {
            assert(dst@ =~= wrapping_read(src@, offset as int, 0));
        }
        return;
    }
    let mut pos: usize = if offset == n { 0 } else { offset };
    proof {
        lemma_mod_succ(offset as int, n as int);
        if offset == n {
            lemma_fundamental_div_mod_converse(offset as int, n as int, 1, 0);
        } else {
            lemma_fundamental_div_mod_converse(offset as int, n as int, 0, offset as int);
        }
    }
    let mut k: usize = 0;
    while k < len
        invariant
            n == src@.len(),
            len == dst@.len(),
            len == old(dst)@.len(),
            0 < n,
            k <= len,
            pos < n,
            pos as int == (offset + k) % (n as int),
            forall|j: int| 0 <= j < k ==> dst@[j] == src@[(offset + j) % (n as int)],
        decreases len - k,
    {
        dst[k] = src[pos];
        proof {
            lemma_mod_succ(offset + k, n as int);
        }
        pos = if pos + 1 == n { 0 } else { pos + 1 };
        k = k + 1;
    }
    proof {
        assert(dst@ =~= wrapping_read(src@, offset as int, len as nat));
    }
}

/// Mock error of the I2C interface; the mock never fails, so it has no values.
#[derive(Debug)]
pub struct I2cMockError(pub core::convert::Infallible);

/// One operation of an I2C transaction, holding the bytes it moves.
#[derive(Debug)]
pub enum Operation {
    /// Read data into the buffer; its length is the number of bytes read.
    Read(Vec<u8>),
    /// Write the data of the buffer.
    Write(Vec<u8>),
}

/// Whether `op` writes nothing.
pub open spec fn is_empty_write(op: Operation) -> bool {
    op matches Operation::Write(w) && w@.len() == 0
}

/// The number of empty writes that a transaction begins with; the operation after them, if any,
/// carries the command.
pub open spec fn command_index(ops: Seq<Operation>) -> nat
    decreases ops.len(),
{
    if ops.len() > 0 && is_empty_write(ops[0]) {
        1 + command_index(ops.drop_first())
    } else {
        0
    }
}

/// The kind of a command byte: its high nibble.
pub open spec fn command_kind(command: u8) -> int {
    command as int / 16
}

/// The argument of a command byte: its low nibble. For a display data command it is the start
/// row.
pub open spec fn command_argument(command: u8) -> int {
    command as int % 16
}

/// Whether the mock handles commands of this kind: display data (`0b0000`), system setup
/// (`0b0010`), display setup (`0b1000`) and dimming (`0b1110`).
pub open spec fn command_supported(command: u8) -> bool {
    let kind = command_kind(command);
    kind == 0b0000 || kind == 0b0010 || kind == 0b1000 || kind == 0b1110
}

/// The display memory after the command write `bytes` (a command byte, then its data): a display
/// data command writes its data from the row in its low nibble on, with wraparound; the other
/// commands leave the memory as it is.
pub open spec fn command_memory(mem: Seq<u8>, bytes: Seq<u8>) -> Seq<u8> {
    if command_kind(bytes[0]) == 0 {
        wrapping_write(mem, bytes.skip(1), command_argument(bytes[0]))
    } else {
        mem
    }
}

/// Whether the mock handles the transaction `ops`: after its leading empty writes, either nothing
/// is left, or a write with a supported command comes; a display data command may only be
/// followed by reads.
pub open spec fn transaction_supported(ops: Seq<Operation>) -> bool {
    let s = command_index(ops) as int;
    s < ops.len() ==> match ops[s] {
        Operation::Read(_) => false,
        Operation::Write(w) => {
            &&& command_supported(w@[0])
            &&& command_kind(w@[0]) == 0 ==> forall|j: int| s < j < ops.len() ==> ops[j] is Read
        },
    }
}

/// The display memory after the transaction `ops`.
pub open spec fn transaction_memory(mem: Seq<u8>, ops: Seq<Operation>) -> Seq<u8> {
    let s = command_index(ops) as int;
    if s < ops.len() {
        match ops[s] {
            Operation::Write(w) => command_memory(mem, w@),
            Operation::Read(_) => mem,
        }
    } else {
        mem
    }
}

/// The start row of the reads of the transaction `ops`, when it is a display data command.
pub open spec fn transaction_read_start(ops: Seq<Operation>) -> Option<int> {
    let s = command_index(ops) as int;
    if s < ops.len() {
        match ops[s] {
            Operation::Write(w) => if command_kind(w@[0]) == 0 {
                Some(command_argument(w@[0]))
            } else {
                None
            },
            Operation::Read(_) => None,
        }
    } else {
        None
    }
}

/// Whether `after` is the read `before` filled from `mem`, starting at row `start`.
pub open spec fn read_filled(before: Operation, after: Operation, mem: Seq<u8>, start: int) -> bool {
    match (before, after) {
        (Operation::Read(b), Operation::Read(a)) => a@ == wrapping_read(mem, start, b@.len()),
        _ => false,
    }
}

/// Whether `after` are the operations `before` once the transaction has run on the display
/// memory, leaving `mem`: after a display data command, each read behind it holds as many bytes
/// as before, read from `mem` from the command's start row on; every other operation is unchanged.
pub open spec fn transaction_operations(
    before: Seq<Operation>,
    after: Seq<Operation>,
    mem: Seq<u8>,
) -> bool {
    &&& after.len() == before.len()
    &&& forall|j: int|
        0 <= j < before.len() ==> match transaction_read_start(before) {
            Some(start) => if j > command_index(before) {
                read_filled(before[j], #[trigger] after[j], mem, start)
            } else {
                after[j] == before[j]
            },
            None => after[j] == before[j],
        }
}

/// Reading back what was written: a display data write of at most one display RAM's worth of
/// bytes from row `start` on, then a display data command for the same row without data, leaves
/// the display RAM as the write left it, and a read from that row of as many bytes gives back
/// exactly the bytes written.
pub proof fn lemma_write_then_read_back(mem: Seq<u8>, start: u8, data: Seq<u8>)
    requires
        mem.len() == ROWS_SIZE,
        start <= 0x0F,
        data.len() <= ROWS_SIZE,
    ensures
        command_memory(command_memory(mem, seq![start] + data), seq![start]) == command_memory(
            mem,
            seq![start] + data,
        ),
        wrapping_read(command_memory(mem, seq![start] + data), start as int, data.len()) == data,
{
    let bytes = seq![start] + data;
    assert(bytes[0] == start);
    assert(bytes.skip(1) =~= data);
    assert(seq![start].skip(1) =~= Seq::<u8>::empty());
    lemma_read_back_written(mem, data, start as int);
}

/// The setup and dimming commands that the driver types encode are all handled by the mock, and
/// none of them changes the display RAM.
pub proof fn lemma_setup_commands_accepted(mem: Seq<u8>, d: Display, o: Oscillator, level: u8)
    requires
        level <= 15,
    ensures
        command_supported((0x80 + d.setup_bits()) as u8),
        command_memory(mem, seq![(0x80 + d.setup_bits()) as u8]) == mem,
        command_supported((0x20 + o.setup_bit()) as u8),
        command_memory(mem, seq![(0x20 + o.setup_bit()) as u8]) == mem,
        command_supported((0xE0 + level) as u8),
        command_memory(mem, seq![(0xE0 + level) as u8]) == mem,
{
    crate::types::display::lemma_display_command_round_trip(d);
    crate::types::oscillator::lemma_oscillator_command_round_trip(o);
    crate::types::dimming::lemma_dimming_command_round_trip(level);
}

/// What an operation holds: whether it is a read, and its bytes.
pub open spec fn operation_view(op: Operation) -> (bool, Seq<u8>) {
    match op {
        Operation::Read(b) => (true, b@),
        Operation::Write(w) => (false, w@),
    }
}

/// A transaction that begins with an empty write is handled as the rest of it: it is handled
/// exactly when the rest is, it leaves the same display memory, and its operations end up as
/// the empty write followed by what the rest's operations end up as.
pub proof fn lemma_leading_empty_write_skipped(
    w: Operation,
    rest: Seq<Operation>,
    mem: Seq<u8>,
    after: Seq<Operation>,
)
    requires
        is_empty_write(w),
    ensures
        transaction_supported(seq![w] + rest) == transaction_supported(rest),
        transaction_fault(seq![w] + rest) == transaction_fault(rest),
        transaction_memory(mem, seq![w] + rest) == transaction_memory(mem, rest),
        transaction_operations(seq![w] + rest, after, mem) <==> (after.len() > 0 && after[0] == w
            && transaction_operations(rest, after.drop_first(), mem)),
{
    let ops = seq![w] + rest;
    assert(ops.drop_first() =~= rest);
    assert(ops[0] == w);
    let s = command_index(rest) as int;
    assert(command_index(ops) == s + 1);
    assert forall|j: int| 0 <= j < rest.len() implies ops[j + 1] == rest[j] by {}
    if s < rest.len() {
        assert(ops[s + 1] == rest[s]);
        if let Operation::Write(c) = rest[s] {
            if command_kind(c@[0]) == 0 {
                assert((forall|j: int| s + 1 < j < ops.len() ==> ops[j] is Read) <==> (forall|
                    j: int,
                | s < j < rest.len() ==> rest[j] is Read)) by {
                    if forall|j: int| s < j < rest.len() ==> rest[j] is Read {
                        assert forall|j: int| s + 1 < j < ops.len() implies ops[j] is Read by {
                            assert(ops[j] == rest[j - 1]);
                        }
                    }
                    if forall|j: int| s + 1 < j < ops.len() ==> ops[j] is Read {
                        assert forall|j: int| s < j < rest.len() implies rest[j] is Read by {
                            assert(ops[j + 1] == rest[j]);
                        }
                    }
                }
                assert((exists|j: int| s + 1 < j < ops.len() && #[trigger] ops[j] is Write) <==> (
                exists|j: int| s < j < rest.len() && #[trigger] rest[j] is Write)) by {
                    if exists|j: int| s < j < rest.len() && #[trigger] rest[j] is Write {
                        let j = choose|j: int| s < j < rest.len() && #[trigger] rest[j] is Write;
                        assert(ops[j + 1] == rest[j]);
                    }
                    if exists|j: int| s + 1 < j < ops.len() && #[trigger] ops[j] is Write {
                        let j = choose|j: int| s + 1 < j < ops.len() && #[trigger] ops[j] is Write;
                        assert(ops[j] == rest[j - 1]);
                    }
                }
            }
        }
    }
    assert(transaction_read_start(ops) == transaction_read_start(rest));
    if transaction_operations(ops, after, mem) {
        assert(after[0] == ops[0]);
        let tail = after.drop_first();
        assert forall|j: int| 0 <= j < rest.len() implies match transaction_read_start(rest) {
            Some(start) => if j > command_index(rest) {
                read_filled(rest[j], #[trigger] tail[j], mem, start)
            } else {
                tail[j] == rest[j]
            },
            None => tail[j] == rest[j],
        } by {
            assert(tail[j] == after[j + 1]);
            assert(ops[j + 1] == rest[j]);
        }
    }
    if after.len() > 0 && after[0] == w && transaction_operations(rest, after.drop_first(), mem) {
        let tail = after.drop_first();
        assert forall|j: int| 0 <= j < ops.len() implies match transaction_read_start(ops) {
            Some(start) => if j > command_index(ops) {
                read_filled(ops[j], #[trigger] after[j], mem, start)
            } else {
                after[j] == ops[j]
            },
            None => after[j] == ops[j],
        } by {
            if j > 0 {
                assert(tail[j - 1] == after[j]);
                assert(ops[j] == rest[j - 1]);
            }
        }
    }
}

/// Two transactions whose operations hold the same bytes agree on where the command stands.
proof fn lemma_command_index_by_view(ops1: Seq<Operation>, ops2: Seq<Operation>)
    requires
        ops1.len() == ops2.len(),
        forall|j: int| 0 <= j < ops1.len() ==> operation_view(ops1[j]) == operation_view(ops2[j]),
    ensures
        command_index(ops1) == command_index(ops2),
    decreases ops1.len(),
{
    if ops1.len() > 0 {
        assert(operation_view(ops1[0]) == operation_view(ops2[0]));
        let (t1, t2) = (ops1.drop_first(), ops2.drop_first());
        assert forall|j: int| 0 <= j < t1.len() implies operation_view(t1[j]) == operation_view(
            t2[j],
        ) by {
            assert(operation_view(ops1[j + 1]) == operation_view(ops2[j + 1]));
        }
        lemma_command_index_by_view(t1, t2);
    }
}

/// The outcome of a transaction depends on the display memory and on the bytes of its
/// operations alone, and on nothing else, the bus address among it: operations that hold the
/// same bytes are handled alike, leave the same display memory, and end up holding the same
/// bytes.
pub proof fn lemma_transaction_outcome_determined(
    mem: Seq<u8>,
    before1: Seq<Operation>,
    before2: Seq<Operation>,
    after1: Seq<Operation>,
    after2: Seq<Operation>,
)
    requires
        before1.len() == before2.len(),
        forall|j: int|
            0 <= j < before1.len() ==> operation_view(before1[j]) == operation_view(before2[j]),
        transaction_operations(before1, after1, transaction_memory(mem, before1)),
        transaction_operations(before2, after2, transaction_memory(mem, before2)),
    ensures
        transaction_supported(before1) == transaction_supported(before2),
        transaction_memory(mem, before1) == transaction_memory(mem, before2),
        after1.len() == after2.len(),
        forall|j: int|
            0 <= j < after1.len() ==> operation_view(after1[j]) == operation_view(after2[j]),
{
    lemma_command_index_by_view(before1, before2);
    let s = command_index(before1) as int;
    if s < before1.len() {
        assert(operation_view(before1[s]) == operation_view(before2[s]));
        assert((forall|j: int| s < j < before1.len() ==> before1[j] is Read) <==> (forall|j: int|
            s < j < before2.len() ==> before2[j] is Read)) by {
            assert forall|j: int| s < j < before1.len() implies (before1[j] is Read <==> before2[j] is Read) by {
                assert(operation_view(before1[j]) == operation_view(before2[j]));
            }
        }
    }
    let m = transaction_memory(mem, before1);
    assert forall|j: int| 0 <= j < after1.len() implies operation_view(after1[j]) == operation_view(
        after2[j],
    ) by {
        assert(operation_view(before1[j]) == operation_view(before2[j]));
    }
}

/// The mock handles exactly the commands whose high nibble is display data (`0x00..=0x0F`),
/// system setup (`0x20..=0x2F`), display setup (`0x80..=0x8F`) or dimming (`0xE0..=0xEF`).
pub proof fn lemma_command_support(c: u8)
    ensures
        command_supported(c) <==> (c < 0x10 || (0x20 <= c < 0x30) || (0x80 <= c < 0x90) || (0xE0
            <= c < 0xF0)),
        c < 0x10 ==> command_kind(c) == 0 && command_argument(c) == c,
{
}

/// A transaction whose command (after its leading empty writes) is a display data command,
/// followed by reads only, is one the mock runs: it has no fault.
pub proof fn lemma_display_data_transaction_supported(ops: Seq<Operation>, bytes: Seq<u8>)
    requires
        command_index(ops) < ops.len(),
        operation_view(ops[command_index(ops) as int]) == (false, bytes),
        bytes.len() > 0,
        bytes[0] < 0x10,
        forall|j: int|
            command_index(ops) < j < ops.len() ==> (#[trigger] operation_view(ops[j])).0,
    ensures
        transaction_fault(ops) == None::<Unsupported>,
        transaction_supported(ops),
{
    lemma_command_support(bytes[0]);
    let s = command_index(ops) as int;
    assert forall|j: int| s < j < ops.len() implies ops[j] is Read by {
        assert(operation_view(ops[j]).0);
    }
    if exists|j: int| s < j < ops.len() && #[trigger] ops[j] is Write {
        let j = choose|j: int| s < j < ops.len() && #[trigger] ops[j] is Write;
        assert(ops[j] is Read);
    }
}

/// Whether some of the `n` data bytes of a display data command with command byte `c < 0x10`
/// is written to row `r`: byte `i` goes to row `(c + i) % 16`.
pub open spec fn written_row(c: u8, n: int, r: int) -> bool {
    exists|i: int| 0 <= i < n && #[trigger] wrap_cell(c as int, i, 16) == r
}

/// A display data write of a command byte `c < 0x10` and data bytes `d`: row `(c + i) % 16`
/// then holds `d[i]` (for at most 16 data bytes, so that none is overwritten), and every row
/// that no data byte is written to keeps its contents.
pub proof fn lemma_display_data_write(mem: Seq<u8>, bytes: Seq<u8>)
    requires
        mem.len() == ROWS_SIZE,
        bytes.len() > 0,
        bytes[0] < 0x10,
    ensures
        command_memory(mem, bytes).len() == ROWS_SIZE,
        bytes.len() <= ROWS_SIZE + 1 ==> forall|i: int|
            0 <= i < bytes.len() - 1 ==> command_memory(mem, bytes)[(bytes[0] + i) % 16]
                == #[trigger] bytes.skip(1)[i],
        forall|r: int|
            0 <= r < ROWS_SIZE && !written_row(bytes[0], bytes.len() - 1, r)
                ==> #[trigger] command_memory(mem, bytes)[r] == mem[r],
{
    let c = bytes[0];
    let data = bytes.skip(1);
    lemma_command_support(c);
    lemma_wrapping_write_len(mem, data, c as int);
    if bytes.len() <= ROWS_SIZE + 1 {
        assert forall|i: int| 0 <= i < bytes.len() - 1 implies command_memory(mem, bytes)[(c + i)
            % 16] == #[trigger] bytes.skip(1)[i] by {
            lemma_wrapping_write_last_wins(mem, data, c as int, i);
        }
    }
    assert forall|r: int|
        0 <= r < ROWS_SIZE && !written_row(c, bytes.len() - 1, r) implies #[trigger] command_memory(
        mem,
        bytes,
    )[r] == mem[r] by {
        assert forall|k: int| 0 <= k < data.len() implies #[trigger] wrap_cell(c as int, k, 16)
            != r by {
        }
        lemma_wrapping_write_untouched(mem, data, c as int, r);
    }
}

/// A read after a display data command byte `c < 0x10` starts at row `c` itself: its byte `i`
/// is row `(c + i) % 16`.
pub proof fn lemma_display_data_read(mem: Seq<u8>, c: u8, len: nat)
    requires
        mem.len() == ROWS_SIZE,
        c < 0x10,
    ensures
        command_kind(c) == 0,
        wrapping_read(mem, command_argument(c), len).len() == len,
        forall|i: int|
            0 <= i < len ==> #[trigger] wrapping_read(mem, command_argument(c), len)[i] == mem[(c
                + i) % 16],
{
    lemma_command_support(c);
}

/// A transaction with a display data command `bytes` (command byte `c < 0x10`) leaves row
/// `(c + i) % 16` holding data byte `i` (for at most 16 data bytes), keeps every other row, and
/// fills each read behind the command with as many bytes as it had, byte `i` from row
/// `(c + i) % 16` of the new display memory.
pub proof fn lemma_display_data_transaction(
    mem: Seq<u8>,
    ops: Seq<Operation>,
    bytes: Seq<u8>,
    after: Seq<Operation>,
)
    requires
        mem.len() == ROWS_SIZE,
        command_index(ops) < ops.len(),
        operation_view(ops[command_index(ops) as int]) == (false, bytes),
        bytes.len() > 0,
        bytes[0] < 0x10,
        transaction_operations(ops, after, transaction_memory(mem, ops)),
    ensures
        transaction_memory(mem, ops).len() == ROWS_SIZE,
        bytes.len() <= ROWS_SIZE + 1 ==> forall|i: int|
            0 <= i < bytes.len() - 1 ==> transaction_memory(mem, ops)[(bytes[0] + i) % 16]
                == #[trigger] bytes.skip(1)[i],
        forall|r: int|
            0 <= r < ROWS_SIZE && !written_row(bytes[0], bytes.len() - 1, r)
                ==> #[trigger] transaction_memory(mem, ops)[r] == mem[r],
        after.len() == ops.len(),
        forall|j: int|
            command_index(ops) < j < ops.len() && (#[trigger] operation_view(ops[j])).0 ==> {
                &&& operation_view(after[j]).0
                &&& operation_view(after[j]).1.len() == operation_view(ops[j]).1.len()
                &&& forall|i: int|
                    0 <= i < operation_view(ops[j]).1.len() ==> #[trigger] operation_view(
                        after[j],
                    ).1[i] == transaction_memory(mem, ops)[(bytes[0] + i) % 16]
            },
{
    let s = command_index(ops) as int;
    let c = bytes[0];
    assert(ops[s] matches Operation::Write(w) && w@ == bytes);
    assert(transaction_memory(mem, ops) == command_memory(mem, bytes));
    lemma_display_data_write(mem, bytes);
    let m = transaction_memory(mem, ops);
    lemma_command_support(c);
    assert(transaction_read_start(ops) == Some(c as int));
    assert forall|j: int| s < j < ops.len() && (#[trigger] operation_view(ops[j])).0 implies {
        &&& operation_view(after[j]).0
        &&& operation_view(after[j]).1.len() == operation_view(ops[j]).1.len()
        &&& forall|i: int|
            0 <= i < operation_view(ops[j]).1.len() ==> #[trigger] operation_view(after[j]).1[i]
                == m[(c + i) % 16]
    } by {
        assert(read_filled(ops[j], after[j], m, c as int));
        lemma_display_data_read(m, c, operation_view(ops[j]).1.len());
        let len = operation_view(ops[j]).1.len();
        assert forall|i: int| 0 <= i < len implies #[trigger] operation_view(after[j]).1[i] == m[(c
            + i) % 16] by {
            assert(wrapping_read(m, command_argument(c), len)[i] == m[(c + i) % 16]);
        }
    }
}

/// Whether `op` writes nothing.
fn is_empty_write_op(op: &Operation) -> (b: bool)
    ensures
        b == is_empty_write(*op),
{
    match op {
        Operation::Write(w) => w.len() == 0,
        Operation::Read(_) => false,
    }
}

/// The number of empty writes that `operations` begins with.
fn leading_empty_writes(operations: &[Operation]) -> (s: usize)
    ensures
        s == command_index(operations@),
        s <= operations@.len(),
        s < operations@.len() ==> !is_empty_write(operations@[s as int]),
{
    let ghost ops = operations@;
    let n = operations.len();
    let mut s: usize = 0;
    assert(ops.subrange(0, n as int) =~= ops);
    while s < n && is_empty_write_op(&operations[s])
        invariant
            s <= n,
            n == ops.len(),
            operations@ == ops,
            command_index(ops) == s + command_index(ops.subrange(s as int, n as int)),
        decreases n - s,
    {
        proof {
            let rest = ops.subrange(s as int, n as int);
            assert(rest.drop_first() =~= ops.subrange(s + 1, n as int));
        }
        s = s + 1;
    }
    s
}

/// Why the mock cannot run a transaction.
#[derive(Clone, Copy, Debug, PartialEq, Eq, Structural)]
pub enum Unsupported {
    /// After the leading empty writes comes a read: a read needs a command written before it.
    ReadWithoutCommand,
    /// A display data command is followed by a write: a transaction carries a single command.
    SecondCommand,
    /// The command is of this kind (high nibble), which the mock does not handle.
    UnknownCommand(u8),
}

/// Why the mock cannot run the transaction `ops`, if it cannot: the first reason in the order in
/// which the mock meets them.
pub open spec fn transaction_fault(ops: Seq<Operation>) -> Option<Unsupported> {
    let s = command_index(ops) as int;
    if s < ops.len() {
        match ops[s] {
            Operation::Read(_) => Some(Unsupported::ReadWithoutCommand),
            Operation::Write(w) => if !command_supported(w@[0]) {
                Some(Unsupported::UnknownCommand(command_kind(w@[0]) as u8))
            } else if command_kind(w@[0]) == 0 && exists|j: int|
                s < j < ops.len() && #[trigger] ops[j] is Write {
                Some(Unsupported::SecondCommand)
            } else {
                None
            },
        }
    } else {
        None
    }
}

/// Tells whether the mock can run the transaction `operations`, and if not, why.
pub fn check_transaction(operations: &[Operation]) -> (r: Option<Unsupported>)
    ensures
        r == transaction_fault(operations@),
        r is None <==> transaction_supported(operations@),
{
    let n = operations.len();
    let s = leading_empty_writes(operations);
    if s == n {
        return None;
    }
    let command: u8 = match &operations[s] {
        Operation::Read(_) => {
            return Some(Unsupported::ReadWithoutCommand);
        },
        Operation::Write(w) => w[0],
    };
    let kind = command >> 4u8;
    assert(kind == command / 16) by (bit_vector)
        requires
            kind == command >> 4u8,
    ;
    if kind != 0b0000 && kind != 0b0010 && kind != 0b1000 && kind != 0b1110 {
        return Some(Unsupported::UnknownCommand(kind));
    }
    if kind == 0 {
        let mut j = s + 1;
        while j < n
            invariant
                s < j <= n,
                n == operations@.len(),
                s == command_index(operations@),
                (operations@[s as int] matches Operation::Write(w) && w@[0] == command),
                command / 16 == 0,
                forall|i: int| s < i < j ==> operations@[i] is Read,
            decreases n - j,
        {
            match &operations[j] {
                Operation::Write(_) => {
                    assert(operations@[j as int] is Write);
                    return Some(Unsupported::SecondCommand);
                },
                Operation::Read(_) => {},
            }
            j = j + 1;
        }
    }
    None
}

/// The mock I2C state.
pub struct I2cMock {
    /// Display RAM state.
    pub data_values: [u8; ROWS_SIZE],
}

impl I2cMock {
    /// Create an I2cMock, with all of the display RAM cleared.
    pub fn new() -> (m: Self)
        ensures
            m.data_values@ == Seq::new(ROWS_SIZE as nat, |i: int| 0u8),
    {
        let m = I2cMock { data_values: [0u8; ROWS_SIZE] };
        assert(m.data_values@ =~= Seq::new(ROWS_SIZE as nat, |i: int| 0u8));
        m
    }

    /// Runs the I2C transaction `operations` on the mock; the address is ignored.
    ///
    /// Leading empty writes are skipped. The first byte of the next write is the command: a
    /// display data command writes the rest of that write to the display RAM from the row in its
    /// low nibble on, wrapping around after the last row, and then fills every read that follows
    /// from the same row on; the setup and dimming commands change nothing.
    pub fn transaction(&mut self, _address: u8, operations: &mut [Operation]) -> (r: Result<
        (),
        I2cMockError,
    >)
        requires
            transaction_supported(old(operations)@),
        ensures
            r is Ok,
            final(self).data_values@ == transaction_memory(
                old(self).data_values@,
                old(operations)@,
            ),
            transaction_operations(
                old(operations)@,
                final(operations)@,
                final(self).data_values@,
            ),
    {
        let ghost ops0 = operations@;
        let n = operations.len();
        let s = leading_empty_writes(operations);
        if s == n {
            proof {
                assert(transaction_operations(ops0, operations@, self.data_values@));
            }
            return Ok(());
        }
        let command: u8 = match &operations[s] {
            Operation::Write(w) => w[0],
            Operation::Read(_) => {
                return Ok(());
            },
        };
        assert((command >> 4u8) == command / 16 && (command & 0x0F) == command % 16)
            by (bit_vector);
        if command >> 4u8 == 0 {
            if let Operation::Write(w) = &operations[s] {
                let (_, to_write) = w.as_slice().split_at(1);
                assert(to_write@ =~= w@.skip(1));
                if to_write.len() > 0 {
                    copy_to_wrapping_with_offset(
                        to_write,
                        &mut self.data_values,
                        (command & 0x0F) as usize,
                    );
                }
            }
        }
        let ghost mem = self.data_values@;
        if command >> 4u8 == 0 {
            let start = command & 0x0F;
            let mut j = s + 1;
            while j < n
                invariant
                    s < j <= n,
                    n == operations@.len(),
                    self.data_values@ == mem,
                    mem.len() == ROWS_SIZE,
                    start <= 15,
                    ops0.len() == n,
                    transaction_read_start(ops0) == Some(start as int),
                    command_index(ops0) == s,
                    forall|i: int| s < i < n ==> ops0[i] is Read,
                    forall|i: int|
                        0 <= i < n ==> if s < i < j {
                            read_filled(ops0[i], #[trigger] operations@[i], mem, start as int)
                        } else {
                            operations@[i] == ops0[i]
                        },
                decreases n - j,
            {
                let len = match &operations[j] {
                    Operation::Read(buffer) => buffer.len(),
                    Operation::Write(_) => 0,
                };
                let mut buffer: Vec<u8> = Vec::new();
                let mut k: usize = 0;
                while k < len
                    invariant
                        k <= len,
                        buffer@.len() == k,
                    decreases len - k,
                {
                    buffer.push(0u8);
                    k = k + 1;
                }
                copy_from_wrapping_with_offset(
                    buffer.as_mut_slice(),
                    &self.data_values,
                    start as usize,
                );
                operations[j] = Operation::Read(buffer);
                j = j + 1;
            }
        } else if command >> 4u8 == 0b0010 {
            // System setup: switching the oscillator on or off changes no display data.
        } else if command >> 4u8 == 0b1000 {
            let _display_status = Display::from_raw(command & 0x0F);
        } else {
            let _dimming_level = Dimming::new(command & 0x0F);
        }
        Ok(())
    }

    /// Writes the bytes `write` in a single write transaction: the first byte is the command,
    /// the rest its data. Writing no bytes does nothing.
    pub fn write(&mut self, address: u8, write: &[u8]) -> (r: Result<(), I2cMockError>)
        requires
            write@.len() > 0 ==> command_supported(write@[0]),
        ensures
            r is Ok,
            final(self).data_values@ == if write@.len() > 0 {
                command_memory(old(self).data_values@, write@)
            } else {
                old(self).data_values@
            },
    {
        let mut operations: Vec<Operation> = Vec::new();
        operations.push(Operation::Write(vstd::slice::slice_to_vec(write)));
        proof {
            reveal_with_fuel(command_index, 2);
            assert(operations@.drop_first() =~= Seq::<Operation>::empty());
        }
        self.transaction(address, operations.as_mut_slice())
    }

    /// Writes the bytes `write` and then fills `read` in a single transaction. The first byte of
    /// `write` is the command, the rest its data; after a display data command, `read` is filled
    /// from the display RAM from the command's start row on, wrapping around after the last row,
    /// and after any other command `read` is left as it is.
    pub fn write_read(&mut self, address: u8, write: &[u8], read: &mut [u8]) -> (r: Result<
        (),
        I2cMockError,
    >)
        requires
            write@.len() > 0,
            command_supported(write@[0]),
        ensures
            r is Ok,
            final(self).data_values@ == command_memory(old(self).data_values@, write@),
            final(read)@ == if command_kind(write@[0]) == 0 {
                wrapping_read(final(self).data_values@, command_argument(write@[0]), old(read)@.len())
            } else {
                old(read)@
            },
    {
        let mut operations: Vec<Operation> = Vec::new();
        operations.push(Operation::Write(vstd::slice::slice_to_vec(write)));
        operations.push(Operation::Read(vstd::slice::slice_to_vec(read)));
        let r = self.transaction(address, operations.as_mut_slice());
        match &operations[1] {
            Operation::Read(filled) => {
                let len = read.len();
                let mut k: usize = 0;
                while k < len
                    invariant
                        len == read@.len(),
                        len == filled@.len(),
                        k <= len,
                        forall|i: int| 0 <= i < k ==> read@[i] == filled@[i],
                    decreases len - k,
                {
                    read[k] = filled[k];
                    k = k + 1;
                }
                assert(read@ =~= filled@);
            },
            Operation::Write(_) => {},
        }
        r
    }
}

impl Default for I2cMock {
    /// A mock with all of the display RAM cleared.
    fn default() -> (m: Self)
        ensures
            m.data_values@ == Seq::new(ROWS_SIZE as nat, |i: int| 0u8),
    {
        Self::new()
    }
}

} // verus!
