use vstd::prelude::*;
use vstd::string::StringSliceAdditionalSpecFns;

verus! {

/// The deepest nesting a shader source may have before it is handed to the
/// shader compiler, whose recursive-descent parser has no limit of its own.
pub const MAX_NESTING: usize = 64;

/// `(`, `[`, `{`.
pub open spec fn is_open(b: u8) -> bool {
    b == 40 || b == 91 || b == 123
}

/// `)`, `]`, `}`, `>`.
pub open spec fn is_close(b: u8) -> bool {
    b == 41 || b == 93 || b == 125 || b == 62
}

/// A letter, digit or underscore: a `<` right after one opens a template list.
pub open spec fn is_word(b: u8) -> bool {
    (48 <= b <= 57) || (65 <= b <= 90) || (97 <= b <= 122) || b == 95
}

/// Prefix operators: `-`, `!`, `~`, `*`, `&`.
pub open spec fn is_prefix_op(b: u8) -> bool {
    b == 45 || b == 33 || b == 126 || b == 42 || b == 38
}

pub open spec fn is_blank(b: u8) -> bool {
    b == 32 || b == 9 || b == 10 || b == 13
}

/// One byte of the scan. The state is the number of open brackets and
/// template lists, the number of prefix operators in a row (blanks between
/// them do not break the row), and the largest sum of the two so far.
pub open spec fn nest_step(st: (int, int, int), prev: u8, b: u8) -> (int, int, int) {
    let (depth, run, peak) = st;
    let d = if is_open(b) || (b == 60 && is_word(prev)) {
        depth + 1
    } else if is_close(b) && depth > 0 {
        depth - 1
    } else {
        depth
    };
    let r = if is_prefix_op(b) {
        run + 1
    } else if is_blank(b) {
        run
    } else {
        0
    };
    (d, r, if d + r > peak { d + r } else { peak })
}

pub open spec fn nest_scan(s: Seq<u8>) -> (int, int, int)
    decreases s.len(),
{
    if s.len() == 0 {
        (0, 0, 0)
    } else {
        let prev = if s.len() >= 2 { s[s.len() - 2] } else { 32u8 };
        nest_step(nest_scan(s.drop_last()), prev, s.last())
    }
}

/// How deeply the source nests: at worst, brackets and template lists still
/// open plus prefix operators in a row.
pub open spec fn nesting_of(s: Seq<u8>) -> int {
    nest_scan(s).2
}

proof fn lemma_peak_grows(s: Seq<u8>, i: int)
    requires
        0 <= i <= s.len(),
    ensures
        nest_scan(s.subrange(0, i)).2 <= nest_scan(s).2,
    decreases s.len() - i,
{
    if i < s.len() {
        assert(s.subrange(0, i + 1).drop_last() =~= s.subrange(0, i));
        lemma_peak_grows(s, i + 1);
    } else {
        assert(s.subrange(0, i) =~= s);
    }
}

/// Whether the source nests no deeper than `MAX_NESTING`.
pub fn nesting_within_limit(source: &str) -> (r: bool)
    ensures
        r == (nesting_of(source.spec_bytes()) <= MAX_NESTING),
{
    let s = source.as_bytes();
    let ghost bs = s@;
    let mut depth: usize = 0;
    let mut run: usize = 0;
    let mut peak: usize = 0;
    let mut i: usize = 0;
    assert(bs.subrange(0, 0) =~= Seq::<u8>::empty());
    while i < s.len()
        invariant
            bs == s@,
            bs == source.spec_bytes(),
            i <= bs.len(),
            nest_scan(bs.subrange(0, i as int)) == (depth as int, run as int, peak as int),
            depth + run <= peak,
            peak <= MAX_NESTING,
        decreases bs.len() - i,
    {
        let b = s[i];
        let prev: u8 = if i >= 1 { s[i - 1] } else { 32u8 };
        let open = b == 40 || b == 91 || b == 123
            || (b == 60 && ((48 <= prev && prev <= 57) || (65 <= prev && prev <= 90) || (97 <= prev && prev <= 122) || prev == 95));
        if open {
            depth = depth + 1;
        } else if (b == 41 || b == 93 || b == 125 || b == 62) && depth > 0 {
            depth = depth - 1;
        }
        if b == 45 || b == 33 || b == 126 || b == 42 || b == 38 {
            run = run + 1;
        } else if !(b == 32 || b == 9 || b == 10 || b == 13) {
            run = 0;
        }
        if depth + run > peak {
            peak = depth + run;
        }
        proof {
            let p = bs.subrange(0, i + 1);
            assert(p.drop_last() =~= bs.subrange(0, i as int));
            assert(p.last() == b);
            if i >= 1 {
                assert(p[p.len() - 2] == prev);
            }
            assert(nest_scan(p) == (depth as int, run as int, peak as int));
        }
        i = i + 1;
        if peak > MAX_NESTING {
            proof {
                assert(nest_scan(bs.subrange(0, i as int)).2 == peak as int);
                lemma_peak_grows(bs, i as int);
                assert(nesting_of(bs) > MAX_NESTING);
            }
            return false;
        }
    }
    assert(bs.subrange(0, i as int) =~= bs);
    true
}

} // verus!
