//! The canonical core-register set and its name resolution.
//!
//! Registers are addressed by a fixed canonical set {R0..R12, SP, LR, PC}.
//! Names are matched case-insensitively, and the stack pointer, link
//! register and program counter may equally be named by their numeric
//! aliases R13, R14 and R15.

use vstd::prelude::*;

verus! {

/// Folds the lowercase letters that occur in register names to their
/// uppercase forms; every other character is left alone.
pub open spec fn norm_char(c: char) -> char {
    if c == 'r' {
        'R'
    } else if c == 's' {
        'S'
    } else if c == 'p' {
        'P'
    } else if c == 'l' {
        'L'
    } else if c == 'c' {
        'C'
    } else {
        c
    }
}

/// A register name with its case folded for matching.
pub open spec fn norm_name(s: Seq<char>) -> Seq<char> {
    s.map_values(|c: char| norm_char(c))
}

/// The hardware register id a name denotes, if any: R0..R15 by number
/// (matched case-insensitively), with SP, LR and PC as aliases of R13, R14
/// and R15.
pub open spec fn reg_id_of(s: Seq<char>) -> Option<u8> {
    let n = norm_name(s);
    if n == seq!['R', '0'] {
        Some(0u8)
    } else if n == seq!['R', '1'] {
        Some(1u8)
    } else if n == seq!['R', '2'] {
        Some(2u8)
    } else if n == seq!['R', '3'] {
        Some(3u8)
    } else if n == seq!['R', '4'] {
        Some(4u8)
    } else if n == seq!['R', '5'] {
        Some(5u8)
    } else if n == seq!['R', '6'] {
        Some(6u8)
    } else if n == seq!['R', '7'] {
        Some(7u8)
    } else if n == seq!['R', '8'] {
        Some(8u8)
    } else if n == seq!['R', '9'] {
        Some(9u8)
    } else if n == seq!['R', '1', '0'] {
        Some(10u8)
    } else if n == seq!['R', '1', '1'] {
        Some(11u8)
    } else if n == seq!['R', '1', '2'] {
        Some(12u8)
    } else if n == seq!['R', '1', '3'] || n == seq!['S', 'P'] {
        Some(13u8)
    } else if n == seq!['R', '1', '4'] || n == seq!['L', 'R'] {
        Some(14u8)
    } else if n == seq!['R', '1', '5'] || n == seq!['P', 'C'] {
        Some(15u8)
    } else {
        None
    }
}

/// The canonical bulk-read plan: the 16 canonical register names in their
/// fixed order, each with the hardware id it denotes.
pub open spec fn canonical_plan() -> Seq<(Seq<char>, u8)> {
    seq![
        (seq!['R', '0'], 0u8),
        (seq!['R', '1'], 1u8),
        (seq!['R', '2'], 2u8),
        (seq!['R', '3'], 3u8),
        (seq!['R', '4'], 4u8),
        (seq!['R', '5'], 5u8),
        (seq!['R', '6'], 6u8),
        (seq!['R', '7'], 7u8),
        (seq!['R', '8'], 8u8),
        (seq!['R', '9'], 9u8),
        (seq!['R', '1', '0'], 10u8),
        (seq!['R', '1', '1'], 11u8),
        (seq!['R', '1', '2'], 12u8),
        (seq!['S', 'P'], 13u8),
        (seq!['L', 'R'], 14u8),
        (seq!['P', 'C'], 15u8),
    ]
}

/// The read plan for an explicit name list: the names that denote a
/// register, in request order, each paired with its id; unknown names are
/// skipped.
pub open spec fn read_plan(names: Seq<Seq<char>>) -> Seq<(Seq<char>, u8)>
    decreases names.len(),
{
    if names.len() == 0 {
        Seq::empty()
    } else {
        read_plan(names.drop_last()) + match reg_id_of(names.last()) {
            Some(id) => seq![(names.last(), id)],
            None => Seq::empty(),
        }
    }
}

/// A name list as the character sequences it holds.
pub open spec fn names_of(ns: Seq<String>) -> Seq<Seq<char>> {
    ns.map_values(|n: String| n@)
}

/// Whether a read plan holds an entry under the given name.
pub open spec fn name_in_plan(plan: Seq<(Seq<char>, u8)>, n: Seq<char>) -> bool {
    exists|i: int| 0 <= i < plan.len() && (#[trigger] plan[i]).0 == n
}

/// Whether `a` is a subsequence of `b`: `a` is `b` with zero or more
/// elements left out, order kept and nothing repeated beyond what `b`
/// holds.
pub open spec fn subseq_of(a: Seq<Seq<char>>, b: Seq<Seq<char>>) -> bool
    decreases a.len() + b.len(),
{
    if a.len() == 0 {
        true
    } else if b.len() == 0 {
        false
    } else if a.last() == b.last() {
        subseq_of(a.drop_last(), b.drop_last()) || subseq_of(a, b.drop_last())
    } else {
        subseq_of(a, b.drop_last())
    }
}

/// Appending the same element to both sides preserves the subsequence
/// relation.
pub proof fn lemma_subseq_push_both(a: Seq<Seq<char>>, b: Seq<Seq<char>>, x: Seq<char>)
    requires
        subseq_of(a, b),
    ensures
        subseq_of(a.push(x), b.push(x)),
{
    assert(a.push(x).last() == x);
    assert(b.push(x).last() == x);
    assert(a.push(x).drop_last() =~= a);
    assert(b.push(x).drop_last() =~= b);
}

/// Appending an element on the right alone preserves the subsequence
/// relation.
pub proof fn lemma_subseq_push_right(a: Seq<Seq<char>>, b: Seq<Seq<char>>, x: Seq<char>)
    requires
        subseq_of(a, b),
    ensures
        subseq_of(a, b.push(x)),
{
    if a.len() > 0 {
        assert(b.push(x).drop_last() =~= b);
        assert(b.push(x).last() == x);
    }
}

/// The plan a bulk read follows: every canonical register when no names
/// are given, otherwise the known ones among the given names.
pub open spec fn bulk_read_plan(names: Seq<Seq<char>>) -> Seq<(Seq<char>, u8)> {
    if names.len() == 0 {
        canonical_plan()
    } else {
        read_plan(names)
    }
}

fn norm_char_x(c: char) -> (r: char)
    ensures
        r == norm_char(c),
{
    if c == 'r' {
        'R'
    } else if c == 's' {
        'S'
    } else if c == 'p' {
        'P'
    } else if c == 'l' {
        'L'
    } else if c == 'c' {
        'C'
    } else {
        c
    }
}

/// Resolves a register name to its hardware id, case-insensitively and
/// through the R13/R14/R15 aliases; `None` for any other name.
pub fn lookup_register(name: &str) -> (r: Option<u8>)
    ensures
        r == reg_id_of(name@),
{
    let len = name.unicode_len();
    if len == 2 {
        let c0 = norm_char_x(name.get_char(0));
        let c1 = norm_char_x(name.get_char(1));
        proof {
            assert(norm_name(name@).len() == 2);
            assert(norm_name(name@)[0] == norm_char(name@[0]));
            assert(norm_name(name@)[1] == norm_char(name@[1]));
        }
        let r: Option<u8> = if c0 == 'R' && c1 == '0' {
            Some(0u8)
        } else if c0 == 'R' && c1 == '1' {
            Some(1u8)
        } else if c0 == 'R' && c1 == '2' {
            Some(2u8)
        } else if c0 == 'R' && c1 == '3' {
            Some(3u8)
        } else if c0 == 'R' && c1 == '4' {
            Some(4u8)
        } else if c0 == 'R' && c1 == '5' {
            Some(5u8)
        } else if c0 == 'R' && c1 == '6' {
            Some(6u8)
        } else if c0 == 'R' && c1 == '7' {
            Some(7u8)
        } else if c0 == 'R' && c1 == '8' {
            Some(8u8)
        } else if c0 == 'R' && c1 == '9' {
            Some(9u8)
        } else if c0 == 'S' && c1 == 'P' {
            Some(13u8)
        } else if c0 == 'L' && c1 == 'R' {
            Some(14u8)
        } else if c0 == 'P' && c1 == 'C' {
            Some(15u8)
        } else {
            None
        };
        proof {
            if r is Some {
                assert(norm_name(name@) =~= seq![c0, c1]);
            }
        }
        r
    } else if len == 3 {
        let c0 = norm_char_x(name.get_char(0));
        let c1 = norm_char_x(name.get_char(1));
        let c2 = norm_char_x(name.get_char(2));
        proof {
            assert(norm_name(name@).len() == 3);
            assert(norm_name(name@)[0] == norm_char(name@[0]));
            assert(norm_name(name@)[1] == norm_char(name@[1]));
            assert(norm_name(name@)[2] == norm_char(name@[2]));
        }
        let r: Option<u8> = if c0 == 'R' && c1 == '1' && c2 == '0' {
            Some(10u8)
        } else if c0 == 'R' && c1 == '1' && c2 == '1' {
            Some(11u8)
        } else if c0 == 'R' && c1 == '1' && c2 == '2' {
            Some(12u8)
        } else if c0 == 'R' && c1 == '1' && c2 == '3' {
            Some(13u8)
        } else if c0 == 'R' && c1 == '1' && c2 == '4' {
            Some(14u8)
        } else if c0 == 'R' && c1 == '1' && c2 == '5' {
            Some(15u8)
        } else {
            None
        };
        proof {
            if r is Some {
                assert(norm_name(name@) =~= seq![c0, c1, c2]);
            }
        }
        r
    } else {
        proof {
            assert(norm_name(name@).len() == name@.len());
        }
        None
    }
}

/// The canonical register names, in their fixed order, each with the
/// hardware id it denotes.
pub fn canonical_registers() -> (r: Vec<(String, u8)>)
    ensures
        r@.len() == canonical_plan().len(),
        forall|i: int|
            0 <= i < r@.len() ==> (#[trigger] r@[i]).0@ == canonical_plan()[i].0
                && r@[i].1 == canonical_plan()[i].1,
{
    proof {
        reveal_strlit("R0");
        reveal_strlit("R1");
        reveal_strlit("R2");
        reveal_strlit("R3");
        reveal_strlit("R4");
        reveal_strlit("R5");
        reveal_strlit("R6");
        reveal_strlit("R7");
        reveal_strlit("R8");
        reveal_strlit("R9");
        reveal_strlit("R10");
        reveal_strlit("R11");
        reveal_strlit("R12");
        reveal_strlit("SP");
        reveal_strlit("LR");
        reveal_strlit("PC");
    }
    let mut r: Vec<(String, u8)> = Vec::new();
    r.push((String::from_str("R0"), 0u8));
    r.push((String::from_str("R1"), 1u8));
    r.push((String::from_str("R2"), 2u8));
    r.push((String::from_str("R3"), 3u8));
    r.push((String::from_str("R4"), 4u8));
    r.push((String::from_str("R5"), 5u8));
    r.push((String::from_str("R6"), 6u8));
    r.push((String::from_str("R7"), 7u8));
    r.push((String::from_str("R8"), 8u8));
    r.push((String::from_str("R9"), 9u8));
    r.push((String::from_str("R10"), 10u8));
    r.push((String::from_str("R11"), 11u8));
    r.push((String::from_str("R12"), 12u8));
    r.push((String::from_str("SP"), 13u8));
    r.push((String::from_str("LR"), 14u8));
    r.push((String::from_str("PC"), 15u8));
    proof {
        assert forall|i: int| 0 <= i < r@.len() implies (#[trigger] r@[i]).0@
            == canonical_plan()[i].0 && r@[i].1 == canonical_plan()[i].1 by {
            assert(r@[i].0@ =~= canonical_plan()[i].0);
        }
    }
    r
}

/// The read plan an explicit or empty name list gives: the canonical set
/// for an empty list, otherwise the known names in request order, unknown
/// names skipped.
pub fn resolve_read_set(names: &Vec<String>) -> (r: Vec<(String, u8)>)
    ensures
        r@.map_values(|p: (String, u8)| (p.0@, p.1))
            == bulk_read_plan(names@.map_values(|n: String| n@)),
{
    if names.len() == 0 {
        let r = canonical_registers();
        proof {
            assert(names@.map_values(|n: String| n@).len() == 0);
            assert(r@.map_values(|p: (String, u8)| (p.0@, p.1)) =~= canonical_plan());
        }
        r
    } else {
        let mut r: Vec<(String, u8)> = Vec::new();
        let mut i: usize = 0;
        while i < names.len()
            invariant
                0 <= i <= names@.len(),
                r@.map_values(|p: (String, u8)| (p.0@, p.1))
                    == read_plan(names@.map_values(|n: String| n@).take(i as int)),
            decreases names@.len() - i,
        {
            let ghost pre = names@.map_values(|n: String| n@).take(i as int);
            let ghost post = names@.map_values(|n: String| n@).take(i + 1 as int);
            proof {
                assert(post.drop_last() =~= pre);
                assert(post.last() == names@[i as int]@);
            }
            match lookup_register(names[i].as_str()) {
                Some(id) => {
                    r.push((names[i].clone(), id));
                }
                None => {
                }
            }
            proof {
                assert(r@.map_values(|p: (String, u8)| (p.0@, p.1)) =~= read_plan(post));
            }
            i = i + 1;
        }
        proof {
            assert(names@.map_values(|n: String| n@).take(names@.len() as int)
                =~= names@.map_values(|n: String| n@));
        }
        r
    }
}

} // verus!
