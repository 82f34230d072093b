//! The computations of the `proc_exec` system call that replaces the
//! running process: the argument list that the guest hands over as one
//! text, whether the program name is relative to the working directory,
//! and where the child's process id is written into a saved memory stack
//! when the call returns to a `vfork` point.

use vstd::prelude::*;

use crate::text::has_prefix;

verus! {

/// The characters that separate arguments: line feed and carriage return.
pub open spec fn is_arg_separator(c: char) -> bool {
    c == '\n' || c == '\r'
}

/// Scanning `s` from the left: the non-empty arguments completed so far,
/// and the argument still being read.
pub open spec fn scan_args(s: Seq<char>) -> (Seq<Seq<char>>, Seq<char>)
    decreases s.len(),
{
    if s.len() == 0 {
        (Seq::empty(), Seq::empty())
    } else {
        let (done, cur) = scan_args(s.drop_last());
        if is_arg_separator(s.last()) {
            (
                if cur.len() > 0 {
                    done.push(cur)
                } else {
                    done
                },
                Seq::empty(),
            )
        } else {
            (done, cur.push(s.last()))
        }
    }
}

/// The arguments in `s`: the pieces between separators, empty pieces
/// dropped.
pub open spec fn split_args(s: Seq<char>) -> Seq<Seq<char>> {
    let (done, cur) = scan_args(s);
    if cur.len() > 0 {
        done.push(cur)
    } else {
        done
    }
}

/// Splits the argument text of an exec request at line feeds and carriage
/// returns, dropping empty pieces.
pub fn split_exec_args(args: &str) -> (r: Vec<String>)
    ensures
        r.deep_view() == split_args(args@),
{
    let n = args.unicode_len();
    let mut out: Vec<String> = Vec::new();
    let mut start: usize = 0;
    let mut i: usize = 0;
    assert(args@.take(0) == Seq::<char>::empty());
    assert(args@.subrange(0, 0) == Seq::<char>::empty());
    while i < n
        invariant
            n == args@.len(),
            start <= i <= n,
            scan_args(args@.take(i as int)) == (out.deep_view(), args@.subrange(
                start as int,
                i as int,
            )),
        decreases n - i,
    {
        let c = args.get_char(i);
        assert(args@.take(i + 1).drop_last() == args@.take(i as int));
        assert(args@.take(i + 1).last() == c);
        if c == '\n' || c == '\r' {
            if i > start {
                let piece = String::from_str(args.substring_char(start, i));
                let ghost before = out.deep_view();
                out.push(piece);
                assert(out.deep_view() =~= before.push(args@.subrange(start as int, i as int)));
            }
            start = i + 1;
            assert(args@.subrange(start as int, i + 1) == Seq::<char>::empty());
        } else {
            assert(args@.subrange(start as int, i + 1) == args@.subrange(
                start as int,
                i as int,
            ).push(c));
        }
        i = i + 1;
    }
    assert(args@.take(n as int) == args@);
    if n > start {
        let piece = String::from_str(args.substring_char(start, n));
        let ghost before = out.deep_view();
        out.push(piece);
        assert(out.deep_view() =~= before.push(args@.subrange(start as int, n as int)));
    }
    out
}

/// Every argument is non-empty and holds no separator.
pub proof fn law_split_args_clean(s: Seq<char>)
    ensures
        forall|i: int| 0 <= i < split_args(s).len() ==> #[trigger] split_args(s)[i].len() > 0,
        forall|i: int, j: int|
            0 <= i < split_args(s).len() && 0 <= j < split_args(s)[i].len() ==> !is_arg_separator(
                #[trigger] split_args(s)[i][j],
            ),
{
    lemma_scan_args_clean(s);
    let (done, cur) = scan_args(s);
    if cur.len() > 0 {
        assert forall|i: int| 0 <= i < split_args(s).len() implies #[trigger] split_args(
            s,
        )[i].len() > 0 by {
            if i < done.len() {
                assert(split_args(s)[i] == done[i]);
            }
        }
        assert forall|i: int, j: int|
            0 <= i < split_args(s).len() && 0 <= j < split_args(s)[i].len() implies !is_arg_separator(
            #[trigger] split_args(s)[i][j],
        ) by {
            if i < done.len() {
                assert(split_args(s)[i] == done[i]);
            } else {
                assert(split_args(s)[i] == cur);
            }
        }
    }
}

proof fn lemma_scan_args_clean(s: Seq<char>)
    ensures
        forall|i: int| 0 <= i < scan_args(s).0.len() ==> #[trigger] scan_args(s).0[i].len() > 0,
        forall|i: int, j: int|
            0 <= i < scan_args(s).0.len() && 0 <= j < scan_args(s).0[i].len()
                ==> !is_arg_separator(#[trigger] scan_args(s).0[i][j]),
        forall|j: int| 0 <= j < scan_args(s).1.len() ==> !is_arg_separator(#[trigger] scan_args(s).1[j]),
    decreases s.len(),
{
    if s.len() > 0 {
        lemma_scan_args_clean(s.drop_last());
        let (done, cur) = scan_args(s.drop_last());
        let (d2, c2) = scan_args(s);
        if is_arg_separator(s.last()) {
            assert forall|i: int| 0 <= i < d2.len() implies #[trigger] d2[i].len() > 0 by {
                if i < done.len() {
                    assert(d2[i] == done[i]);
                }
            }
            assert forall|i: int, j: int|
                0 <= i < d2.len() && 0 <= j < d2[i].len() implies !is_arg_separator(
                #[trigger] d2[i][j],
            ) by {
                if i < done.len() {
                    assert(d2[i] == done[i]);
                } else {
                    assert(d2[i] == cur);
                }
            }
        } else {
            assert(d2 == done);
            assert forall|j: int| 0 <= j < c2.len() implies !is_arg_separator(#[trigger] c2[j]) by {
                if j < cur.len() {
                    assert(c2[j] == cur[j]);
                }
            }
        }
    }
}

/// A separator divides the text: the arguments of `a`, a separator, then
/// `b` are the arguments of `a` followed by those of `b`, in order and with
/// repetitions kept.
pub proof fn law_split_args_concat(a: Seq<char>, sep: char, b: Seq<char>)
    requires
        is_arg_separator(sep),
    ensures
        split_args(a + seq![sep] + b) == split_args(a) + split_args(b),
{
    lemma_scan_after_separator(a, sep, b);
    let (d, c) = scan_args(b);
    if c.len() > 0 {
        assert((split_args(a) + d).push(c) =~= split_args(a) + d.push(c));
    }
}

proof fn lemma_scan_after_separator(a: Seq<char>, sep: char, b: Seq<char>)
    requires
        is_arg_separator(sep),
    ensures
        scan_args(a + seq![sep] + b) == (split_args(a) + scan_args(b).0, scan_args(b).1),
    decreases b.len(),
{
    let t = a + seq![sep] + b;
    if b.len() == 0 {
        assert(t.drop_last() =~= a);
        assert(t.last() == sep);
        assert(split_args(a) + Seq::<Seq<char>>::empty() =~= split_args(a));
    } else {
        lemma_scan_after_separator(a, sep, b.drop_last());
        assert(t.drop_last() =~= a + seq![sep] + b.drop_last());
        assert(t.last() == b.last());
        let (d, c) = scan_args(b.drop_last());
        assert((split_args(a) + d).push(c) =~= split_args(a) + d.push(c));
    }
}

/// A text without separators is a single argument, if it is not empty.
pub proof fn law_split_args_single(s: Seq<char>)
    requires
        s.len() > 0,
        forall|j: int| 0 <= j < s.len() ==> !is_arg_separator(s[j]),
    ensures
        split_args(s) == seq![s],
{
    lemma_scan_args_plain(s);
    assert(Seq::<Seq<char>>::empty().push(s) == seq![s]);
}

proof fn lemma_scan_args_plain(s: Seq<char>)
    requires
        forall|j: int| 0 <= j < s.len() ==> !is_arg_separator(s[j]),
    ensures
        scan_args(s) == (Seq::<Seq<char>>::empty(), s),
    decreases s.len(),
{
    if s.len() > 0 {
        lemma_scan_args_plain(s.drop_last());
        assert(s.drop_last().push(s.last()) == s);
    }
}

/// Whether the program name is relative to the working directory (it
/// starts with `./`), so that it has to be made absolute before the
/// program is looked up.
pub fn is_relative_program(name: &str) -> (r: bool)
    ensures
        r == has_prefix(name@, "./"@),
{
    proof {
        reveal_strlit("./");
    }
    let n = name.unicode_len();
    if n < 2 {
        return false;
    }
    let c0 = name.get_char(0);
    let c1 = name.get_char(1);
    assert("./"@.len() == 2 && "./"@[0] == '.' && "./"@[1] == '/');
    if c0 == '.' && c1 == '/' {
        assert(name@.subrange(0, 2) =~= "./"@);
        true
    } else {
        assert(name@.subrange(0, 2)[0] == c0 && name@.subrange(0, 2)[1] == c1);
        false
    }
}

/// Where the child's process id goes when the call returns to a `vfork`
/// point.
#[derive(Debug, Clone, Copy, PartialEq, Eq)]
pub enum PidPlacement {
    /// The id was written into the saved stack.
    Written,
    /// The return slot lies on the stack but outside its saved, active part.
    OutsideActiveStack,
    /// The return slot is not on the stack; this is not supported.
    NotOnStack,
}

/// Where the return slot at `pid_offset` falls, for a stack spanning
/// `stack_start..stack_base` of which the top `saved_len` bytes were saved.
pub open spec fn pid_placement(pid_offset: int, stack_start: int, stack_base: int, saved_len: int) -> PidPlacement {
    if stack_start <= pid_offset && pid_offset < stack_base {
        if stack_base - pid_offset > saved_len {
            PidPlacement::OutsideActiveStack
        } else {
            PidPlacement::Written
        }
    } else {
        PidPlacement::NotOnStack
    }
}

/// `stack` with `bytes` written from `at` on.
pub open spec fn splice(stack: Seq<u8>, at: int, bytes: Seq<u8>) -> Seq<u8> {
    stack.subrange(0, at) + bytes + stack.subrange(at + bytes.len(), stack.len() as int)
}

/// Writing bytes into the stack keeps its length, puts the bytes in their
/// slot, and leaves every byte outside the slot as it was.
pub proof fn law_splice_writes_only_the_slot(stack: Seq<u8>, at: int, bytes: Seq<u8>)
    requires
        0 <= at,
        at + bytes.len() <= stack.len(),
    ensures
        splice(stack, at, bytes).len() == stack.len(),
        forall|k: int| at <= k < at + bytes.len() ==> #[trigger] splice(stack, at, bytes)[k]
            == bytes[k - at],
        forall|k: int|
            0 <= k < stack.len() && !(at <= k < at + bytes.len()) ==> #[trigger] splice(
                stack,
                at,
                bytes,
            )[k] == stack[k],
{
}

/// Writes the bytes of the child's process id into the saved stack, at the
/// slot that lies `stack_base - pid_offset` bytes below the top of the
/// saved part, when that slot lies in the saved part.
pub fn write_pid_bytes(
    memory_stack: &mut Vec<u8>,
    pid_offset: u64,
    stack_start: u64,
    stack_base: u64,
    pid_bytes: &[u8],
) -> (r: PidPlacement)
    requires
        pid_placement(
            pid_offset as int,
            stack_start as int,
            stack_base as int,
            old(memory_stack).len() as int,
        ) == PidPlacement::Written ==> stack_base - pid_offset >= pid_bytes.len(),
    ensures
        r == pid_placement(
            pid_offset as int,
            stack_start as int,
            stack_base as int,
            old(memory_stack).len() as int,
        ),
        r == PidPlacement::Written ==> final(memory_stack)@ == splice(
            old(memory_stack)@,
            old(memory_stack).len() - (stack_base - pid_offset),
            pid_bytes@,
        ),
        r != PidPlacement::Written ==> final(memory_stack)@ == old(memory_stack)@,
        final(memory_stack)@.len() == old(memory_stack)@.len(),
        r == PidPlacement::Written ==> forall|k: int|
            0 <= k < old(memory_stack)@.len() && !(old(memory_stack).len() - (stack_base
                - pid_offset) <= k < old(memory_stack).len() - (stack_base - pid_offset)
                + pid_bytes.len()) ==> #[trigger] final(memory_stack)@[k] == old(memory_stack)@[k],
{
    if pid_offset >= stack_start && pid_offset < stack_base {
        let offset = stack_base - pid_offset;
        if offset > memory_stack.len() as u64 {
            PidPlacement::OutsideActiveStack
        } else {
            let len = memory_stack.len();
            let off = offset as usize;
            assert(off == offset);
            let pstart = len - off;
            let ghost before = memory_stack@;
            let mut j: usize = 0;
            while j < pid_bytes.len()
                invariant
                    pstart + pid_bytes.len() <= before.len(),
                    memory_stack.len() == before.len(),
                    j <= pid_bytes.len(),
                    memory_stack@ == splice(before, pstart as int, pid_bytes@.take(j as int)),
                decreases pid_bytes.len() - j,
            {
                memory_stack[pstart + j] = pid_bytes[j];
                assert(memory_stack@ =~= splice(before, pstart as int, pid_bytes@.take(j + 1)));
                j = j + 1;
            }
            assert(pid_bytes@.take(pid_bytes.len() as int) == pid_bytes@);
            proof {
                law_splice_writes_only_the_slot(before, pstart as int, pid_bytes@);
            }
            PidPlacement::Written
        }
    } else {
        PidPlacement::NotOnStack
    }
}

/// The bytes of `x`, least significant first.
pub open spec fn le_bytes(x: u32) -> Seq<u8> {
    seq![
        (x % 256) as u8,
        ((x / 256) % 256) as u8,
        ((x / 65536) % 256) as u8,
        ((x / 16777216) % 256) as u8,
    ]
}

/// The bytes of `x`, most significant first.
pub open spec fn be_bytes(x: u32) -> Seq<u8> {
    le_bytes(x).reverse()
}

/// `u32::to_ne_bytes`: the bytes of `x` in the machine's byte order.
/// Trusted: that order is either least or most significant byte first.
#[verifier::external_body]
fn native_bytes(x: u32) -> (r: [u8; 4])
    ensures
        r@ == le_bytes(x) || r@ == be_bytes(x),
{
    x.to_ne_bytes()
}

/// Writes the child's process id `pid`, in the machine's byte order, into
/// the saved stack as `write_pid_bytes` does.
pub fn place_child_pid(
    memory_stack: &mut Vec<u8>,
    pid_offset: u64,
    stack_start: u64,
    stack_base: u64,
    pid: u32,
) -> (r: PidPlacement)
    requires
        pid_placement(
            pid_offset as int,
            stack_start as int,
            stack_base as int,
            old(memory_stack).len() as int,
        ) == PidPlacement::Written ==> stack_base - pid_offset >= 4,
    ensures
        r == pid_placement(
            pid_offset as int,
            stack_start as int,
            stack_base as int,
            old(memory_stack).len() as int,
        ),
        r == PidPlacement::Written ==> {
            let at = old(memory_stack).len() - (stack_base - pid_offset);
            ||| final(memory_stack)@ == splice(old(memory_stack)@, at, le_bytes(pid))
            ||| final(memory_stack)@ == splice(old(memory_stack)@, at, be_bytes(pid))
        },
        r != PidPlacement::Written ==> final(memory_stack)@ == old(memory_stack)@,
        final(memory_stack)@.len() == old(memory_stack)@.len(),
        r == PidPlacement::Written ==> forall|k: int|
            0 <= k < old(memory_stack)@.len() && !(old(memory_stack).len() - (stack_base
                - pid_offset) <= k < old(memory_stack).len() - (stack_base - pid_offset) + 4)
                ==> #[trigger] final(memory_stack)@[k] == old(memory_stack)@[k],
{
    let bytes = native_bytes(pid);
    write_pid_bytes(memory_stack, pid_offset, stack_start, stack_base, bytes.as_slice())
}

} // verus!
