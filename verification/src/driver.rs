use vstd::prelude::*;

verus! {

/// The byte the block-device self-test writes all over block `block_id`:
/// the block number truncated to 8 bits.
pub open spec fn pattern_byte(block_id: usize) -> u8 {
    (block_id % 256) as u8
}

/// Whether every byte of `buf` is the self-test byte of block `block_id`.
pub open spec fn is_test_pattern(buf: Seq<u8>, block_id: usize) -> bool {
    buf.len() == 512 && forall|j: int| 0 <= j < 512 ==> #[trigger] buf[j] == pattern_byte(block_id)
}

/// The buffer the self-test writes to block `block_id`.
pub fn test_pattern(block_id: usize) -> (buf: [u8; 512])
    ensures
        is_test_pattern(buf@, block_id),
{
    let b = (block_id % 256) as u8;
    let mut buf = [0u8; 512];
    let mut j: usize = 0;
    while j < 512
        invariant
            j <= 512,
            b == pattern_byte(block_id),
            forall|k: int| 0 <= k < j ==> #[trigger] buf@[k] == b,
        decreases 512 - j,
    {
        buf[j] = b;
        j = j + 1;
    }
    buf
}

/// Whether block `block_id` read back as the self-test wrote it.
pub fn read_back_matches(block_id: usize, read_back: &[u8; 512]) -> (ok: bool)
    ensures
        ok == is_test_pattern(read_back@, block_id),
{
    let b = (block_id % 256) as u8;
    let mut j: usize = 0;
    while j < 512
        invariant
            j <= 512,
            b == pattern_byte(block_id),
            read_back@.len() == 512,
            forall|k: int| 0 <= k < j ==> #[trigger] read_back@[k] == b,
        decreases 512 - j,
    {
        if read_back[j] != b {
            return false;
        }
        j = j + 1;
    }
    true
}

/// Checking a block read back against the self-test pattern is checking it
/// against what the self-test wrote: the read matches exactly when it
/// equals the written buffer.
pub proof fn law_check_is_equality(block_id: usize, written: Seq<u8>, read: Seq<u8>)
    requires
        is_test_pattern(written, block_id),
        read.len() == 512,
    ensures
        is_test_pattern(read, block_id) <==> read == written,
{
    if is_test_pattern(read, block_id) {
        assert(read =~= written);
    }
}

/// The number of blocks the self-test checks.
pub const SELF_TEST_BLOCKS: usize = 512;

/// Where the block-device self-test stands.
#[derive(Copy, Clone, Debug, PartialEq, Eq, Structural)]
pub enum SelfTestStep {
    /// Write the test pattern to this block, read it back and report it.
    Check(usize),
    /// Every block read back as written.
    Passed,
    /// This block read back otherwise than written; the test stops.
    Failed(usize),
}

/// The self-test after block `block_id` was checked, with `ok` telling
/// whether it read back as written.
pub open spec fn self_test_after(block_id: usize, ok: bool) -> SelfTestStep {
    if !ok {
        SelfTestStep::Failed(block_id)
    } else if block_id + 1 < SELF_TEST_BLOCKS {
        SelfTestStep::Check((block_id + 1) as usize)
    } else {
        SelfTestStep::Passed
    }
}

/// The self-test starts with block 0.
pub fn self_test_first() -> (s: SelfTestStep)
    ensures
        s == SelfTestStep::Check(0),
{
    SelfTestStep::Check(0)
}

/// The next step of the self-test once block `block_id` was read back as
/// `read_back`.
pub fn self_test_next(block_id: usize, read_back: &[u8; 512]) -> (s: SelfTestStep)
    requires
        block_id < SELF_TEST_BLOCKS,
    ensures
        s == self_test_after(block_id, is_test_pattern(read_back@, block_id)),
{
    if !read_back_matches(block_id, read_back) {
        SelfTestStep::Failed(block_id)
    } else if block_id + 1 < SELF_TEST_BLOCKS {
        SelfTestStep::Check(block_id + 1)
    } else {
        SelfTestStep::Passed
    }
}

/// The self-test from `s` after the blocks it checks read back right
/// (`true`) or wrong (`false`), in order.
pub open spec fn self_test_run(s: SelfTestStep, oks: Seq<bool>) -> SelfTestStep
    decreases oks.len(),
{
    if oks.len() == 0 {
        s
    } else {
        match s {
            SelfTestStep::Check(b) => self_test_run(self_test_after(b, oks[0]), oks.drop_first()),
            _ => s,
        }
    }
}

proof fn lemma_self_test_all_ok(b: usize, oks: Seq<bool>)
    requires
        b < SELF_TEST_BLOCKS,
        b + oks.len() <= SELF_TEST_BLOCKS,
        forall|i: int| 0 <= i < oks.len() ==> #[trigger] oks[i],
    ensures
        self_test_run(SelfTestStep::Check(b), oks) == if b + oks.len() < SELF_TEST_BLOCKS {
            SelfTestStep::Check((b + oks.len()) as usize)
        } else {
            SelfTestStep::Passed
        },
    decreases oks.len(),
{
    if oks.len() > 0 {
        let rest = oks.drop_first();
        assert(oks[0]);
        if b + 1 < SELF_TEST_BLOCKS {
            assert forall|i: int| 0 <= i < rest.len() implies #[trigger] rest[i] by {
                assert(oks[i + 1]);
            }
            lemma_self_test_all_ok((b + 1) as usize, rest);
            assert(self_test_run(SelfTestStep::Check(b), oks) == self_test_run(
                SelfTestStep::Check((b + 1) as usize),
                rest,
            ));
        } else {
            assert(rest.len() == 0);
            assert(self_test_run(SelfTestStep::Passed, rest) == SelfTestStep::Passed);
        }
    }
}

proof fn lemma_self_test_first_failure(b: usize, oks: Seq<bool>, i: int)
    requires
        b < SELF_TEST_BLOCKS,
        b + oks.len() <= SELF_TEST_BLOCKS,
        0 <= i < oks.len(),
        !oks[i],
        forall|j: int| 0 <= j < i ==> #[trigger] oks[j],
    ensures
        self_test_run(SelfTestStep::Check(b), oks) == SelfTestStep::Failed((b + i) as usize),
    decreases i,
{
    let rest = oks.drop_first();
    if i > 0 {
        assert(oks[0]);
        assert forall|j: int| 0 <= j < i - 1 implies #[trigger] rest[j] by {
            assert(oks[j + 1]);
        }
        assert(rest[i - 1] == oks[i]);
        lemma_self_test_first_failure((b + 1) as usize, rest, i - 1);
    } else {
        assert(self_test_run(SelfTestStep::Failed(b), rest) == SelfTestStep::Failed(b)) by {
            if rest.len() > 0 {
            }
        }
    }
}

/// The self-test checks blocks 0, 1, ... in order and stops at the first
/// that reads back wrong, failing with its number; it passes exactly when
/// all of its blocks read back as written.
pub proof fn law_self_test_outcome(oks: Seq<bool>)
    requires
        oks.len() <= SELF_TEST_BLOCKS,
    ensures
        (forall|i: int| 0 <= i < oks.len() ==> #[trigger] oks[i]) && oks.len() == SELF_TEST_BLOCKS
            ==> self_test_run(SelfTestStep::Check(0), oks) == SelfTestStep::Passed,
        (forall|i: int| 0 <= i < oks.len() ==> #[trigger] oks[i]) && oks.len() < SELF_TEST_BLOCKS
            ==> self_test_run(SelfTestStep::Check(0), oks) == SelfTestStep::Check(oks.len() as usize),
        forall|i: int|
            0 <= i < oks.len() && !oks[i] && (forall|j: int| 0 <= j < i ==> oks[j]) ==> self_test_run(
                SelfTestStep::Check(0),
                oks,
            ) == SelfTestStep::Failed(i as usize),
{
    if forall|i: int| 0 <= i < oks.len() ==> #[trigger] oks[i] {
        lemma_self_test_all_ok(0, oks);
    }
    assert forall|i: int|
        0 <= i < oks.len() && !oks[i] && (forall|j: int| 0 <= j < i ==> oks[j]) implies self_test_run(
        SelfTestStep::Check(0),
        oks,
    ) == SelfTestStep::Failed(i as usize) by {
        lemma_self_test_first_failure(0, oks, i);
    }
}

} // verus!
