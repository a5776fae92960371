//! The update writer: replaces the bodies of failing expectation sections
//! with freshly observed output, leaving every other section untouched.

use vstd::prelude::*;
use crate::document::{blocks_rep, TestBlock};
use crate::text::{clone_string, normalize_newlines, normalize_newlines_spec, str_eq};

verus! {

/// One block after applying a single failure: a block named `section`
/// whose normalized body differs from the (already normalized) observed
/// output `act` takes `act` as its new body; every other block is kept.
pub open spec fn update_block(
    b: (Seq<char>, Seq<char>),
    section: Seq<char>,
    act: Seq<char>,
) -> (Seq<char>, Seq<char>) {
    if b.0 == section && normalize_newlines_spec(b.1) != act {
        (b.0, act)
    } else {
        b
    }
}

pub open spec fn block_changes(b: (Seq<char>, Seq<char>), section: Seq<char>, act: Seq<char>) -> bool {
    b.0 == section && normalize_newlines_spec(b.1) != act
}

pub open spec fn apply_one_spec(
    bs: Seq<(Seq<char>, Seq<char>)>,
    section: Seq<char>,
    act: Seq<char>,
) -> Seq<(Seq<char>, Seq<char>)> {
    bs.map_values(|b: (Seq<char>, Seq<char>)| update_block(b, section, act))
}

pub open spec fn any_change_one(
    bs: Seq<(Seq<char>, Seq<char>)>,
    section: Seq<char>,
    act: Seq<char>,
) -> bool {
    exists|i: int| 0 <= i < bs.len() && block_changes(#[trigger] bs[i], section, act)
}

/// All failures applied in order; each failure is a (section name,
/// observed output) pair, and the output is normalized before use.
pub open spec fn apply_all_spec(
    bs: Seq<(Seq<char>, Seq<char>)>,
    fs: Seq<(Seq<char>, Seq<char>)>,
) -> Seq<(Seq<char>, Seq<char>)>
    decreases fs.len(),
{
    if fs.len() == 0 {
        bs
    } else {
        apply_all_spec(
            apply_one_spec(bs, fs[0].0, normalize_newlines_spec(fs[0].1)),
            fs.skip(1),
        )
    }
}

/// Whether applying the failures changes any block at all: exactly the
/// condition under which the original file is rewritten.
pub open spec fn any_change_all(
    bs: Seq<(Seq<char>, Seq<char>)>,
    fs: Seq<(Seq<char>, Seq<char>)>,
) -> bool
    decreases fs.len(),
{
    if fs.len() == 0 {
        false
    } else {
        any_change_one(bs, fs[0].0, normalize_newlines_spec(fs[0].1)) || any_change_all(
            apply_one_spec(bs, fs[0].0, normalize_newlines_spec(fs[0].1)),
            fs.skip(1),
        )
    }
}

pub proof fn lemma_apply_one_no_change(
    bs: Seq<(Seq<char>, Seq<char>)>,
    section: Seq<char>,
    act: Seq<char>,
)
    requires
        !any_change_one(bs, section, act),
    ensures
        apply_one_spec(bs, section, act) == bs,
{
    assert forall|i: int| 0 <= i < bs.len() implies apply_one_spec(bs, section, act)[i] == bs[i] by {
        assert(!block_changes(bs[i], section, act));
    }
    assert(apply_one_spec(bs, section, act) =~= bs);
}

pub proof fn lemma_apply_one_idem(
    bs: Seq<(Seq<char>, Seq<char>)>,
    section: Seq<char>,
    act: Seq<char>,
)
    requires
        normalize_newlines_spec(act) == act,
    ensures
        !any_change_one(apply_one_spec(bs, section, act), section, act),
{
    let after = apply_one_spec(bs, section, act);
    assert forall|i: int| 0 <= i < after.len() implies !block_changes(
        #[trigger] after[i],
        section,
        act,
    ) by {
        assert(after[i] == update_block(bs[i], section, act));
    }
}

pub proof fn lemma_apply_one_preserves(
    bs: Seq<(Seq<char>, Seq<char>)>,
    sec1: Seq<char>,
    act1: Seq<char>,
    sec2: Seq<char>,
    act2: Seq<char>,
)
    requires
        sec1 != sec2,
        !any_change_one(bs, sec1, act1),
    ensures
        !any_change_one(apply_one_spec(bs, sec2, act2), sec1, act1),
{
    let after = apply_one_spec(bs, sec2, act2);
    assert forall|i: int| 0 <= i < after.len() implies !block_changes(
        #[trigger] after[i],
        sec1,
        act1,
    ) by {
        assert(after[i] == update_block(bs[i], sec2, act2));
        assert(!block_changes(bs[i], sec1, act1));
    }
}

proof fn lemma_apply_all_preserves(
    bs: Seq<(Seq<char>, Seq<char>)>,
    fs: Seq<(Seq<char>, Seq<char>)>,
    sec: Seq<char>,
    act: Seq<char>,
)
    requires
        forall|j: int| 0 <= j < fs.len() ==> (#[trigger] fs[j]).0 != sec,
        !any_change_one(bs, sec, act),
    ensures
        !any_change_one(apply_all_spec(bs, fs), sec, act),
    decreases fs.len(),
{
    if fs.len() > 0 {
        let b1 = apply_one_spec(bs, fs[0].0, normalize_newlines_spec(fs[0].1));
        lemma_apply_one_preserves(bs, sec, act, fs[0].0, normalize_newlines_spec(fs[0].1));
        assert(forall|j: int| 0 <= j < fs.skip(1).len() ==> (#[trigger] fs.skip(1)[j]).0 != sec)
            by {
            assert(forall|j: int| 0 <= j < fs.skip(1).len() ==> fs.skip(1)[j] == fs[j + 1]);
        }
        lemma_apply_all_preserves(b1, fs.skip(1), sec, act);
    }
}

proof fn lemma_after_apply_all(
    bs: Seq<(Seq<char>, Seq<char>)>,
    fs: Seq<(Seq<char>, Seq<char>)>,
    k: int,
)
    requires
        forall|i: int, j: int| 0 <= i < j < fs.len() ==> (#[trigger] fs[i]).0 != (#[trigger] fs[j]).0,
        forall|i: int|
            0 <= i < fs.len() ==> normalize_newlines_spec(
                normalize_newlines_spec((#[trigger] fs[i]).1),
            ) == normalize_newlines_spec(fs[i].1),
        0 <= k < fs.len(),
    ensures
        !any_change_one(apply_all_spec(bs, fs), fs[k].0, normalize_newlines_spec(fs[k].1)),
    decreases fs.len(),
{
    let b1 = apply_one_spec(bs, fs[0].0, normalize_newlines_spec(fs[0].1));
    let fs1 = fs.skip(1);
    assert(forall|j: int| 0 <= j < fs1.len() ==> fs1[j] == fs[j + 1]);
    if k == 0 {
        lemma_apply_one_idem(bs, fs[0].0, normalize_newlines_spec(fs[0].1));
        assert(forall|j: int| 0 <= j < fs1.len() ==> (#[trigger] fs1[j]).0 != fs[0].0);
        lemma_apply_all_preserves(b1, fs1, fs[0].0, normalize_newlines_spec(fs[0].1));
    } else {
        lemma_after_apply_all(b1, fs1, k - 1);
        assert(fs1[k - 1] == fs[k]);
    }
}

proof fn lemma_no_change_all(bs: Seq<(Seq<char>, Seq<char>)>, fs: Seq<(Seq<char>, Seq<char>)>)
    requires
        forall|k: int|
            0 <= k < fs.len() ==> !any_change_one(
                bs,
                (#[trigger] fs[k]).0,
                normalize_newlines_spec(fs[k].1),
            ),
    ensures
        !any_change_all(bs, fs),
    decreases fs.len(),
{
    if fs.len() > 0 {
        lemma_apply_one_no_change(bs, fs[0].0, normalize_newlines_spec(fs[0].1));
        let fs1 = fs.skip(1);
        assert(forall|j: int| 0 <= j < fs1.len() ==> fs1[j] == fs[j + 1]);
        lemma_no_change_all(bs, fs1);
    }
}

/// Updating twice is updating once: after the failing sections have been
/// rewritten with the observed output, a second pass with the same
/// observations changes nothing, so the file is not written again. The
/// failures must name distinct sections (the harness's fixed check list
/// does) and each observed output must have a stable normalized form.
pub proof fn lemma_update_idempotent(
    bs: Seq<(Seq<char>, Seq<char>)>,
    fs: Seq<(Seq<char>, Seq<char>)>,
)
    requires
        forall|i: int, j: int| 0 <= i < j < fs.len() ==> (#[trigger] fs[i]).0 != (#[trigger] fs[j]).0,
        forall|i: int|
            0 <= i < fs.len() ==> normalize_newlines_spec(
                normalize_newlines_spec((#[trigger] fs[i]).1),
            ) == normalize_newlines_spec(fs[i].1),
    ensures
        !any_change_all(apply_all_spec(bs, fs), fs),
{
    let after = apply_all_spec(bs, fs);
    assert forall|k: int| 0 <= k < fs.len() implies !any_change_one(
        after,
        (#[trigger] fs[k]).0,
        normalize_newlines_spec(fs[k].1),
    ) by {
        lemma_after_apply_all(bs, fs, k);
    }
    lemma_no_change_all(after, fs);
}

/// Sections named by no failure keep their text exactly: a failing check
/// never touches its siblings.
pub proof fn lemma_update_preserves_other_sections(
    bs: Seq<(Seq<char>, Seq<char>)>,
    fs: Seq<(Seq<char>, Seq<char>)>,
    i: int,
)
    requires
        0 <= i < bs.len(),
        forall|j: int| 0 <= j < fs.len() ==> (#[trigger] fs[j]).0 != bs[i].0,
    ensures
        apply_all_spec(bs, fs).len() == bs.len(),
        apply_all_spec(bs, fs)[i] == bs[i],
    decreases fs.len(),
{
    if fs.len() > 0 {
        let b1 = apply_one_spec(bs, fs[0].0, normalize_newlines_spec(fs[0].1));
        assert(b1[i] == update_block(bs[i], fs[0].0, normalize_newlines_spec(fs[0].1)));
        assert(b1[i] == bs[i]);
        let fs1 = fs.skip(1);
        assert(forall|j: int| 0 <= j < fs1.len() ==> fs1[j] == fs[j + 1]);
        lemma_update_preserves_other_sections(b1, fs1, i);
    }
}

/// Rewrites the failing expectation sections in place. `failures` pairs a
/// section name with the actual observed output of its check; every block
/// with that name whose normalized body differs takes the normalized
/// output as its new body. Returns whether anything changed; the caller
/// skips the file write entirely when nothing did.
pub fn apply_failure_updates(blocks: &mut Vec<TestBlock>, failures: &Vec<(String, String)>) -> (changed:
    bool)
    ensures
        blocks_rep(final(blocks)@) == apply_all_spec(
            blocks_rep(old(blocks)@),
            failures.deep_view(),
        ),
        changed == any_change_all(blocks_rep(old(blocks)@), failures.deep_view()),
{
    let nf = failures.len();
    let mut changed = false;
    let mut fi: usize = 0;
    proof {
        assert(failures.deep_view().skip(0) =~= failures.deep_view());
    }
    while fi < nf
        invariant
            fi <= nf,
            nf == failures@.len(),
            failures.deep_view().len() == nf,
            apply_all_spec(blocks_rep(old(blocks)@), failures.deep_view()) == apply_all_spec(
                blocks_rep(blocks@),
                failures.deep_view().skip(fi as int),
            ),
            any_change_all(blocks_rep(old(blocks)@), failures.deep_view()) == (changed
                || any_change_all(blocks_rep(blocks@), failures.deep_view().skip(fi as int))),
        decreases nf - fi,
    {
        let ghost frest = failures.deep_view().skip(fi as int);
        let ghost prep = blocks_rep(blocks@);
        let section = &failures[fi].0;
        let actual = &failures[fi].1;
        proof {
            assert(frest[0] == failures.deep_view()[fi as int]);
            assert(failures.deep_view()[fi as int] =~~= (failures@[fi as int].0@, failures@[fi as int].1@));
            assert(frest.skip(1) =~= failures.deep_view().skip(fi + 1 as int));
        }
        let act_norm = normalize_newlines(actual.as_str());
        let nb = blocks.len();
        let mut out: Vec<TestBlock> = Vec::new();
        let mut this_changed = false;
        let mut bi: usize = 0;
        proof {
            assert(blocks_rep(out@) =~= Seq::<(Seq<char>, Seq<char>)>::empty());
            assert(blocks_rep(out@) =~= apply_one_spec(prep, section@, act_norm@).subrange(0, 0));
        }
        while bi < nb
            invariant
                bi <= nb,
                nb == blocks@.len(),
                prep == blocks_rep(blocks@),
                prep.len() == nb,
                act_norm@ == normalize_newlines_spec(frest[0].1),
                section@ == frest[0].0,
                frest == failures.deep_view().skip(fi as int),
                frest.len() >= 1,
                blocks_rep(out@) == apply_one_spec(prep, section@, act_norm@).subrange(
                    0,
                    bi as int,
                ),
                this_changed == exists|i: int|
                    0 <= i < bi && block_changes(#[trigger] prep[i], section@, act_norm@),
            decreases nb - bi,
        {
            let ghost orep = blocks_rep(out@);
            let b = &blocks[bi];
            proof {
                assert(prep[bi as int] == (b.name@, b.content@));
            }
            let b_norm = normalize_newlines(b.content.as_str());
            if str_eq(b.name.as_str(), section.as_str()) && !str_eq(
                b_norm.as_str(),
                act_norm.as_str(),
            ) {
                out.push(
                    TestBlock { name: clone_string(&b.name), content: clone_string(&act_norm) },
                );
                this_changed = true;
                proof {
                    assert(block_changes(prep[bi as int], section@, act_norm@));
                }
            } else {
                out.push(
                    TestBlock { name: clone_string(&b.name), content: clone_string(&b.content) },
                );
                proof {
                    assert(!block_changes(prep[bi as int], section@, act_norm@));
                }
            }
            proof {
                assert(blocks_rep(out@) =~= orep.push(
                    update_block(prep[bi as int], section@, act_norm@),
                ));
                assert(blocks_rep(out@) =~= apply_one_spec(prep, section@, act_norm@).subrange(
                    0,
                    bi + 1 as int,
                ));
            }
            bi += 1;
        }
        proof {
            assert(apply_one_spec(prep, section@, act_norm@).subrange(0, nb as int)
                =~= apply_one_spec(prep, section@, act_norm@));
            assert(this_changed == any_change_one(prep, section@, act_norm@));
        }
        *blocks = out;
        changed = changed || this_changed;
        fi += 1;
        proof {
            assert(blocks_rep(blocks@) == apply_one_spec(prep, frest[0].0, normalize_newlines_spec(
                frest[0].1,
            )));
        }
    }
    proof {
        assert(failures.deep_view().skip(nf as int) =~= Seq::<(Seq<char>, Seq<char>)>::empty());
    }
    changed
}

} // verus!
