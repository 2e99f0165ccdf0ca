//! Generation of concrete mutants from candidates: applying the operators to
//! the original file texts, filtering by operator mode, thinning by random
//! downsampling, and dropping mutants that failed verification.

use vstd::prelude::*;

use vstd::multiset::Multiset;

use crate::ast::Module;
use crate::configuration::Configuration;
use crate::mutant::Mutant;
use crate::mutation::{MutantInfoView, MutationView};
use crate::operator_filter::OperatorMode;
use crate::text::str_eq;

verus! {

/// The patch text between an original and a modified file; it depends on the
/// two texts alone.
pub uninterp spec fn diff_of(original: Seq<u8>, modified: Seq<u8>) -> Seq<char>;

/// Relies on diffy::create_patch: computes the difference of the two texts;
/// the rendered patch depends on the texts alone.
#[verifier::external_body]
fn create_diff(original: &Vec<u8>, modified: &Vec<u8>) -> (r: String)
    ensures
        r@ == diff_of(original@, modified@),
{
    let o = String::from_utf8_lossy(original).into_owned();
    let m = String::from_utf8_lossy(modified).into_owned();
    diffy::create_patch(&o, &m).to_string()
}

/// Relies on rand::Rng::gen_range over `0..bound`: returns a value below the
/// bound; nothing more is promised of a random draw.
#[verifier::external_body]
fn random_below(bound: usize) -> (r: usize)
    requires
        bound > 0,
    ensures
        r < bound,
{
    rand::Rng::gen_range(&mut rand::thread_rng(), 0..bound)
}

/// One generated mutant: the mutated file text with its metadata, the owning
/// names, and the diff against the original.
#[derive(Debug)]
pub struct GeneratedMutant {
    /// Path of the mutated file.
    pub file_path: String,
    /// Name of the module the mutation lies in.
    pub module_name: String,
    /// Name of the function the mutation lies in.
    pub function_name: String,
    /// The whole mutated file text.
    pub mutated_source: Vec<u8>,
    /// The mutation metadata: range, operator name, original and replacement.
    pub mutation: crate::mutation::Mutation,
    /// The diff between the original and the mutated text.
    pub diff: String,
}

/// The mathematical value of a `GeneratedMutant`.
pub ghost struct GeneratedMutantView {
    pub file_path: Seq<char>,
    pub module_name: Seq<char>,
    pub function_name: Seq<char>,
    pub mutated_source: Seq<u8>,
    pub mutation: MutationView,
    pub diff: Seq<char>,
}

impl View for GeneratedMutant {
    type V = GeneratedMutantView;

    open spec fn view(&self) -> GeneratedMutantView {
        GeneratedMutantView {
            file_path: self.file_path@,
            module_name: self.module_name@,
            function_name: self.function_name@,
            mutated_source: self.mutated_source@,
            mutation: self.mutation@,
            diff: self.diff@,
        }
    }
}

/// The views of a list of generated mutants.
pub open spec fn gm_views(v: Seq<GeneratedMutant>) -> Seq<GeneratedMutantView> {
    v.map_values(|g: GeneratedMutant| g@)
}

/// The source text recorded for a path: the first entry under it, if any.
pub open spec fn spec_source_lookup(files: Seq<(String, Vec<u8>)>, path: Seq<char>) -> Option<
    Seq<u8>,
>
    decreases files,
{
    if files.len() == 0 {
        None
    } else if files[0].0@ == path {
        Some(files[0].1@)
    } else {
        spec_source_lookup(files.drop_first(), path)
    }
}

fn source_lookup<'a>(files: &'a Vec<(String, Vec<u8>)>, path: &str) -> (r: Option<&'a Vec<u8>>)
    ensures
        match spec_source_lookup(files@, path@) {
            Some(t) => r matches Some(v) && v@ == t,
            None => r is None,
        },
{
    proof {
        assert(files@.skip(0) =~= files@);
    }
    let mut i: usize = 0;
    while i < files.len()
        invariant
            i <= files.len(),
            spec_source_lookup(files@, path@) == spec_source_lookup(files@.skip(i as int), path@),
        decreases files.len() - i,
    {
        proof {
            assert(files@.skip(i as int)[0] == files@[i as int]);
            assert(files@.skip(i as int).drop_first() =~= files@.skip(i + 1));
        }
        if str_eq(files[i].0.as_str(), path) {
            return Some(&files[i].1);
        }
        i += 1;
    }
    None
}

/// A name with a fallback for a candidate that carries none.
pub open spec fn spec_name_or(n: Option<String>, alt: Seq<char>) -> Seq<char> {
    match n {
        Some(s) => s@,
        None => alt,
    }
}

/// The generated mutants of one candidate: nothing when its file is unknown,
/// else one mutant per text its operator produces, with the diff of each.
/// A candidate without a module name is attributed to `script`.
pub open spec fn spec_candidate_out(m: Mutant, files: Seq<(String, Vec<u8>)>) -> Seq<
    GeneratedMutantView,
> {
    match m.file_path {
        Option::None => Seq::empty(),
        Option::Some(path) => match spec_source_lookup(files, path@) {
            None => Seq::empty(),
            Some(text) => m.op.spec_apply(text).map_values(
                |iv: MutantInfoView| spec_generated_view(m, path@, text, iv),
            ),
        },
    }
}

pub open spec fn spec_generated_view(
    m: Mutant,
    path: Seq<char>,
    text: Seq<u8>,
    iv: MutantInfoView,
) -> GeneratedMutantView {
    GeneratedMutantView {
        file_path: path,
        module_name: spec_name_or(m.module_name, "script"@),
        function_name: spec_name_or(m.function_name, ""@),
        mutated_source: iv.mutated_source,
        mutation: iv.mutation,
        diff: diff_of(text, iv.mutated_source),
    }
}

/// The generated mutants of a candidate list, in order.
pub open spec fn spec_apply_candidates(
    cands: Seq<Mutant>,
    files: Seq<(String, Vec<u8>)>,
) -> Seq<GeneratedMutantView>
    decreases cands,
{
    if cands.len() == 0 {
        Seq::empty()
    } else {
        spec_candidate_out(cands[0], files) + spec_apply_candidates(cands.drop_first(), files)
    }
}

proof fn lemma_apply_candidates_push(
    cands: Seq<Mutant>,
    x: Mutant,
    files: Seq<(String, Vec<u8>)>,
)
    ensures
        spec_apply_candidates(cands.push(x), files) == spec_apply_candidates(cands, files)
            + spec_candidate_out(x, files),
    decreases cands,
{
    if cands.len() == 0 {
        assert(cands.push(x)[0] == x);
        assert(cands.push(x).drop_first() =~= Seq::<Mutant>::empty());
        assert(spec_apply_candidates(cands.push(x).drop_first(), files) =~= Seq::<
            GeneratedMutantView,
        >::empty());
        assert(spec_apply_candidates(cands.push(x), files) =~= spec_apply_candidates(cands, files)
            + spec_candidate_out(x, files));
    } else {
        assert(cands.push(x)[0] == cands[0]);
        assert(cands.push(x).drop_first() =~= cands.drop_first().push(x));
        lemma_apply_candidates_push(cands.drop_first(), x, files);
        assert(spec_apply_candidates(cands.push(x), files) =~= spec_apply_candidates(cands, files)
            + spec_candidate_out(x, files));
    }
}

/// Apply every candidate to the original text of its file, producing the
/// concrete mutants with their metadata and diffs.
pub fn apply_candidates(cands: &Vec<Mutant>, files: &Vec<(String, Vec<u8>)>) -> (r: Vec<
    GeneratedMutant,
>)
    ensures
        gm_views(r@) == spec_apply_candidates(cands@, files@),
{
    let mut r: Vec<GeneratedMutant> = Vec::new();
    let mut i: usize = 0;
    proof {
        assert(cands@.take(0) =~= Seq::<Mutant>::empty());
        assert(gm_views(r@) =~= spec_apply_candidates(cands@.take(0), files@));
    }
    while i < cands.len()
        invariant
            i <= cands.len(),
            gm_views(r@) == spec_apply_candidates(cands@.take(i as int), files@),
        decreases cands.len() - i,
    {
        let m = &cands[i];
        let ghost pre = r@;
        match &m.file_path {
            None => {},
            Some(path) => {
                match source_lookup(files, path.as_str()) {
                    None => {},
                    Some(text) => {
                        let infos = m.apply(text);
                        let module_name = match &m.module_name {
                            Some(s) => s.clone(),
                            None => "script".to_owned(),
                        };
                        let function_name = match &m.function_name {
                            Some(s) => s.clone(),
                            None => "".to_owned(),
                        };
                        let mut j: usize = 0;
                        proof {
                            assert(crate::mutation::infos_view(infos@).take(0) =~= Seq::<
                                MutantInfoView,
                            >::empty());
                        }
                        while j < infos.len()
                            invariant
                                j <= infos.len(),
                                i < cands@.len(),
                                m == &cands@[i as int],
                                m.file_path matches Some(p) && p == path,
                                text@ == spec_source_lookup(files@, path@)->0,
                                spec_source_lookup(files@, path@) is Some,
                                crate::mutation::infos_view(infos@) == m.op.spec_apply(text@),
                                module_name@ == spec_name_or(m.module_name, "script"@),
                                function_name@ == spec_name_or(m.function_name, ""@),
                                gm_views(r@) == spec_apply_candidates(cands@.take(i as int), files@)
                                    + m.op.spec_apply(text@).take(j as int).map_values(
                                    |iv: MutantInfoView|
                                        spec_generated_view(cands@[i as int], path@, text@, iv),
                                ),
                            decreases infos.len() - j,
                        {
                            let info = &infos[j];
                            let diff = create_diff(text, &info.mutated_source);
                            let ghost pre2 = r@;
                            let gm = GeneratedMutant {
                                file_path: path.clone(),
                                module_name: module_name.clone(),
                                function_name: function_name.clone(),
                                mutated_source: crate::text::subvec(
                                    &info.mutated_source,
                                    0,
                                    info.mutated_source.len(),
                                ),
                                mutation: crate::mutation::Mutation {
                                    span: info.mutation.span,
                                    operator_name: info.mutation.operator_name.clone(),
                                    original: crate::text::subvec(
                                        &info.mutation.original,
                                        0,
                                        info.mutation.original.len(),
                                    ),
                                    replacement: crate::text::subvec(
                                        &info.mutation.replacement,
                                        0,
                                        info.mutation.replacement.len(),
                                    ),
                                },
                                diff,
                            };
                            proof {
                                assert(info.mutated_source@.subrange(
                                    0,
                                    info.mutated_source@.len() as int,
                                ) =~= info.mutated_source@);
                                assert(info.mutation.original@.subrange(
                                    0,
                                    info.mutation.original@.len() as int,
                                ) =~= info.mutation.original@);
                                assert(info.mutation.replacement@.subrange(
                                    0,
                                    info.mutation.replacement@.len() as int,
                                ) =~= info.mutation.replacement@);
                                assert(crate::mutation::infos_view(infos@)[j as int] == infos@[
                                    j as int]@);
                                assert(gm@ == spec_generated_view(
                                    cands@[i as int],
                                    path@,
                                    text@,
                                    m.op.spec_apply(text@)[j as int],
                                ));
                            }
                            r.push(gm);
                            proof {
                                let f = |iv: MutantInfoView|
                                    spec_generated_view(cands@[i as int], path@, text@, iv);
                                let sa = m.op.spec_apply(text@);
                                assert(sa.take(j + 1) =~= sa.take(j as int).push(sa[j as int]));
                                let m1 = gm_views(r@);
                                let m2 = spec_apply_candidates(cands@.take(i as int), files@)
                                    + sa.take(j + 1).map_values(f);
                                assert(m1.len() == pre2.len() + 1);
                                assert(gm_views(pre2).len() == pre2.len());
                                assert(m2.len() == m1.len());
                                assert forall|k: int| 0 <= k < m1.len() implies m1[k] == m2[k] by {
                                    if k < m1.len() - 1 {
                                        assert(m1[k] == gm_views(pre2)[k]);
                                        assert(m2[k] == (spec_apply_candidates(
                                            cands@.take(i as int),
                                            files@,
                                        ) + sa.take(j as int).map_values(f))[k]);
                                    } else {
                                        assert(m1[k] == gm@);
                                        assert(m2[k] == f(sa[j as int]));
                                    }
                                }
                                assert(m1 =~= m2);
                            }
                            j += 1;
                        }
                        proof {
                            let sa = m.op.spec_apply(text@);
                            assert(sa.take(sa.len() as int) =~= sa);
                        }
                    },
                }
            },
        }
        proof {
            assert(cands@.take(i + 1) =~= cands@.take(i as int).push(cands@[i as int]));
            lemma_apply_candidates_push(cands@.take(i as int), cands@[i as int], files@);
            if cands@[i as int].file_path is None {
                assert(spec_candidate_out(cands@[i as int], files@) =~= Seq::<
                    GeneratedMutantView,
                >::empty());
                assert(gm_views(r@) =~= spec_apply_candidates(cands@.take(i + 1), files@));
            } else {
                if spec_source_lookup(files@, cands@[i as int].file_path->0@) is None {
                    assert(spec_candidate_out(cands@[i as int], files@) =~= Seq::<
                        GeneratedMutantView,
                    >::empty());
                    assert(gm_views(r@) =~= spec_apply_candidates(cands@.take(i + 1), files@));
                } else {
                    assert(gm_views(r@) =~= spec_apply_candidates(cands@.take(i + 1), files@));
                }
            }
        }
        i += 1;
    }
    proof {
        assert(cands@.take(cands@.len() as int) =~= cands@);
    }
    r
}

/// Whether a generated mutant's operator is enabled in the mode.
pub open spec fn spec_mode_keeps(mode: OperatorMode, g: GeneratedMutantView) -> bool {
    exists|i: int|
        0 <= i < mode.spec_operators().len() && (#[trigger] mode.spec_operators()[i]).spec_name()
            == g.mutation.operator_name
}

/// The mode filter discards every generated mutant whose operator name is
/// not in the active set.
pub open spec fn spec_filter_by_mode(
    mode: OperatorMode,
    gs: Seq<GeneratedMutantView>,
) -> Seq<GeneratedMutantView> {
    gs.filter(|g: GeneratedMutantView| spec_mode_keeps(mode, g))
}

/// Keep exactly the generated mutants whose operator the mode enables,
/// in order.
pub fn filter_by_mode(gs: Vec<GeneratedMutant>, mode: &OperatorMode) -> (r: Vec<GeneratedMutant>)
    ensures
        gm_views(r@) == spec_filter_by_mode(*mode, gm_views(gs@)),
{
    let names = mode.get_operators();
    proof {
        assert(names@.map_values(|s: &'static str| s@).len() == names@.len());
        assert(mode.spec_operators().map_values(
            |op: crate::operator_filter::Operator| op.spec_name(),
        ).len() == mode.spec_operators().len());
    }
    let mut r: Vec<GeneratedMutant> = Vec::new();
    let mut i: usize = 0;
    let ghost pred = |g: GeneratedMutantView| spec_mode_keeps(*mode, g);
    proof {
        reveal(Seq::filter);
        assert(gm_views(gs@).take(0) =~= Seq::<GeneratedMutantView>::empty());
        assert(gm_views(r@) =~= gm_views(gs@).take(0).filter(pred));
    }
    while i < gs.len()
        invariant
            i <= gs.len(),
            names@.map_values(|s: &'static str| s@) == mode.spec_operators().map_values(
                |op: crate::operator_filter::Operator| op.spec_name(),
            ),
            names@.len() == mode.spec_operators().len(),
            pred == |g: GeneratedMutantView| spec_mode_keeps(*mode, g),
            gm_views(r@) == gm_views(gs@).take(i as int).filter(pred),
        decreases gs.len() - i,
    {
        let mut keep = false;
        let mut k: usize = 0;
        while k < names.len()
            invariant
                i < gs.len(),
                k <= names.len(),
                names@.map_values(|s: &'static str| s@) == mode.spec_operators().map_values(
                    |op: crate::operator_filter::Operator| op.spec_name(),
                ),
                names@.len() == mode.spec_operators().len(),
                keep ==> spec_mode_keeps(*mode, gs@[i as int]@),
                !keep ==> forall|t: int|
                    0 <= t < k ==> (#[trigger] mode.spec_operators()[t]).spec_name() != gs@[
                    i as int]@.mutation.operator_name,
            decreases names.len() - k,
        {
            proof {
                assert(names@.map_values(|s: &'static str| s@)[k as int] == names@[k as int]@);
                assert(mode.spec_operators().map_values(
                    |op: crate::operator_filter::Operator| op.spec_name(),
                )[k as int] == mode.spec_operators()[k as int].spec_name());
            }
            if str_eq(names[k], gs[i].mutation.operator_name.as_str()) {
                keep = true;
            }
            k += 1;
        }
        proof {
            if !keep {
                assert(!spec_mode_keeps(*mode, gs@[i as int]@)) by {
                    if spec_mode_keeps(*mode, gs@[i as int]@) {
                        let t = choose|t: int|
                            0 <= t < mode.spec_operators().len() && (
                            #[trigger] mode.spec_operators()[t]).spec_name() == gs@[
                            i as int]@.mutation.operator_name;
                        assert(mode.spec_operators()[t].spec_name() != gs@[
                            i as int]@.mutation.operator_name);
                    }
                }
            }
            reveal(Seq::filter);
            let gv = gm_views(gs@);
            assert(gv.take(i + 1).drop_last() =~= gv.take(i as int));
            assert(gv.take(i + 1).last() == gv[i as int]);
            assert(gv[i as int] == gs@[i as int]@);
        }
        if keep {
            let g = clone_generated(&gs, i);
            let ghost pre = r@;
            r.push(g);
            proof {
                let gv = gm_views(gs@);
                assert(gv.take(i + 1).filter(pred) == gv.take(i as int).filter(pred).push(
                    gv[i as int],
                ));
                let m1 = gm_views(r@);
                let m2 = gv.take(i + 1).filter(pred);
                assert(gm_views(pre).len() == pre.len());
                assert(m1.len() == m2.len());
                assert forall|t: int| 0 <= t < m1.len() implies m1[t] == m2[t] by {
                    if t < m1.len() - 1 {
                        assert(m1[t] == gm_views(pre)[t]);
                    } else {
                        assert(m1[t] == r@[t]@);
                    }
                }
                assert(m1 =~= m2);
            }
        } else {
            proof {
                reveal(Seq::filter);
                let gv = gm_views(gs@);
                assert(gv.take(i + 1).filter(pred) == gv.take(i as int).filter(pred));
            }
        }
        i += 1;
    }
    proof {
        assert(gm_views(gs@).take(gs@.len() as int) =~= gm_views(gs@));
    }
    r
}

/// Copy one generated mutant out of the list.
fn clone_generated(gs: &Vec<GeneratedMutant>, i: usize) -> (r: GeneratedMutant)
    requires
        i < gs@.len(),
    ensures
        r@ == gs@[i as int]@,
{
    let g = &gs[i];
    let out = GeneratedMutant {
        file_path: g.file_path.clone(),
        module_name: g.module_name.clone(),
        function_name: g.function_name.clone(),
        mutated_source: crate::text::subvec(&g.mutated_source, 0, g.mutated_source.len()),
        mutation: crate::mutation::Mutation {
            span: g.mutation.span,
            operator_name: g.mutation.operator_name.clone(),
            original: crate::text::subvec(&g.mutation.original, 0, g.mutation.original.len()),
            replacement: crate::text::subvec(
                &g.mutation.replacement,
                0,
                g.mutation.replacement.len(),
            ),
        },
        diff: g.diff.clone(),
    };
    proof {
        assert(g.mutated_source@.subrange(0, g.mutated_source@.len() as int)
            =~= g.mutated_source@);
        assert(g.mutation.original@.subrange(0, g.mutation.original@.len() as int)
            =~= g.mutation.original@);
        assert(g.mutation.replacement@.subrange(0, g.mutation.replacement@.len() as int)
            =~= g.mutation.replacement@);
    }
    out
}

/// The number of mutants downsampling keeps of `n` at percentage `p`:
/// `max(0, n - ceil(n*p/100))`.
pub open spec fn spec_downsample_keep(n: int, p: int) -> int {
    if n - ((n * p + 99) / 100) >= 0 {
        n - ((n * p + 99) / 100)
    } else {
        0
    }
}

/// For every count and percentage in range, downsampling keeps between none
/// and all of the mutants, keeps all of them at zero percent, and keeps none
/// of them at one hundred percent.
pub proof fn lemma_downsample_keep_bounds(n: int, p: int)
    requires
        0 <= n,
        0 <= p <= 100,
    ensures
        0 <= spec_downsample_keep(n, p) <= n,
        (n * p + 99) / 100 <= n,
        spec_downsample_keep(n, p) == n - ((n * p + 99) / 100),
        p == 0 ==> spec_downsample_keep(n, p) == n,
        p == 100 ==> spec_downsample_keep(n, p) == 0,
{
    assert(n * p >= 0) by (nonlinear_arith)
        requires
            n >= 0 && p >= 0,
    ;
    assert(n * p <= n * 100) by (nonlinear_arith)
        requires
            n >= 0 && p <= 100,
    ;
    assert((n * p + 99) / 100 >= 0);
    assert((n * 100 + 99) / 100 == n);
    if p == 0 {
        assert(n * 0 == 0) by (nonlinear_arith);
        assert((99int) / 100 == 0);
    }
}

/// Thin the generated set by uniform random sampling without replacement:
/// keep exactly `max(0, n - ceil(n*p/100))` mutants, each of them one of the
/// given mutants. It is applied after generation and mode filtering and
/// before verification and execution; it is a cost-control knob only.
pub fn downsample_mutants(gs: Vec<GeneratedMutant>, percentage: usize) -> (r: Vec<
    GeneratedMutant,
>)
    requires
        percentage <= 100,
        gs@.len() * percentage + 99 <= usize::MAX,
    ensures
        r@.len() == spec_downsample_keep(gs@.len() as int, percentage as int),
        gm_views(r@).to_multiset().subset_of(gm_views(gs@).to_multiset()),
{
    broadcast use vstd::seq_lib::group_to_multiset_ensures;

    let total = gs.len();
    let ghost n = gs@.len() as int;
    let ghost p = percentage as int;
    proof {
        lemma_downsample_keep_bounds(n, p);
        assert(total * percentage == n * p) by (nonlinear_arith)
            requires
                total == n && percentage == p,
        ;
    }
    let keep = total - (total * percentage + 99) / 100;
    let mut v = gs;
    let ghost orig = v@;
    proof {
        assert(gm_views(v@).to_multiset().subset_of(gm_views(orig).to_multiset()));
    }
    while v.len() > keep
        invariant
            keep as int == spec_downsample_keep(n, p),
            keep <= v@.len(),
            gm_views(v@).to_multiset().subset_of(gm_views(orig).to_multiset()),
        decreases v@.len(),
    {
        let j = random_below(v.len());
        let ghost pre = v@;
        v.remove(j);
        proof {
            assert(gm_views(pre.remove(j as int)) =~= gm_views(pre).remove(j as int));
            gm_views(pre).to_multiset_ensures();
            assert(gm_views(pre).remove(j as int).to_multiset() =~= gm_views(pre).to_multiset()
                .remove(gm_views(pre)[j as int]));
            let ms = gm_views(pre).to_multiset();
            let x = gm_views(pre)[j as int];
            assert(ms.remove(x).subset_of(ms)) by {
                assert forall|e: GeneratedMutantView| true implies ms.remove(x).count(e)
                    <= ms.count(e) by {}
            }
            assert forall|e: GeneratedMutantView|
                gm_views(v@).to_multiset().count(e) <= gm_views(orig).to_multiset().count(e) by {
                assert(gm_views(v@).to_multiset().count(e) == ms.remove(x).count(e));
                assert(ms.count(e) <= gm_views(orig).to_multiset().count(e));
            }
        }
    }
    v
}


/// Everything generation produces for a project: the candidates of the
/// selector, applied to the file texts, restricted to the active operator
/// set.
pub open spec fn spec_generate(
    modules: Seq<Module>,
    conf: Configuration,
    files: Seq<(String, Vec<u8>)>,
) -> Seq<GeneratedMutantView> {
    spec_filter_by_mode(
        conf.operator_mode,
        spec_apply_candidates(crate::mutate::spec_mutate(modules, conf), files),
    )
}

/// Generate the mutants of a project: select the candidates, apply the
/// operators to the original file texts, and keep those of the active
/// operator set.
pub fn generate_mutants(
    modules: &Vec<Module>,
    conf: &Configuration,
    files: &Vec<(String, Vec<u8>)>,
) -> (r: Vec<GeneratedMutant>)
    ensures
        gm_views(r@) == spec_generate(modules@, *conf, files@),
{
    let cands = crate::mutate::mutate(modules, conf);
    let gs = apply_candidates(&cands, files);
    filter_by_mode(gs, &conf.operator_mode)
}

/// Re-running selection and generation twice on identical project, coverage
/// and configuration input yields an identical multiset of mutation records:
/// the generated set is a function of that input alone, independent of any
/// execution order.
pub proof fn lemma_generation_deterministic(
    r1: Seq<GeneratedMutantView>,
    r2: Seq<GeneratedMutantView>,
    modules: Seq<Module>,
    conf: Configuration,
    files: Seq<(String, Vec<u8>)>,
)
    requires
        r1 == spec_generate(modules, conf, files),
        r2 == spec_generate(modules, conf, files),
    ensures
        r1.map_values(|g: GeneratedMutantView| g.mutation).to_multiset() == r2.map_values(
            |g: GeneratedMutantView| g.mutation,
        ).to_multiset(),
{
}

/// The mutants kept by the verification step: with verification disabled all
/// of them; with it enabled exactly those whose verdict says they compile.
pub open spec fn spec_retain_compiling(
    gs: Seq<GeneratedMutantView>,
    verdicts: Seq<bool>,
) -> Seq<GeneratedMutantView>
    decreases gs,
{
    if gs.len() == 0 || verdicts.len() == 0 {
        Seq::empty()
    } else {
        (if verdicts[0] {
            seq![gs[0]]
        } else {
            Seq::empty()
        }) + spec_retain_compiling(gs.drop_first(), verdicts.drop_first())
    }
}

proof fn lemma_retain_compiling_push(gs: Seq<GeneratedMutantView>, verdicts: Seq<bool>, g: GeneratedMutantView, v: bool)
    requires
        gs.len() == verdicts.len(),
    ensures
        spec_retain_compiling(gs.push(g), verdicts.push(v)) == spec_retain_compiling(gs, verdicts)
            + if v {
            seq![g]
        } else {
            Seq::empty()
        },
    decreases gs,
{
    if gs.len() == 0 {
        assert(gs.push(g)[0] == g);
        assert(verdicts.push(v)[0] == v);
        assert(gs.push(g).drop_first() =~= Seq::<GeneratedMutantView>::empty());
        assert(verdicts.push(v).drop_first() =~= Seq::<bool>::empty());
        assert(spec_retain_compiling(gs.push(g).drop_first(), verdicts.push(v).drop_first())
            =~= Seq::<GeneratedMutantView>::empty());
        assert(spec_retain_compiling(gs.push(g), verdicts.push(v)) =~= spec_retain_compiling(
            gs,
            verdicts,
        ) + if v {
            seq![g]
        } else {
            Seq::<GeneratedMutantView>::empty()
        });
    } else {
        assert(gs.push(g)[0] == gs[0]);
        assert(verdicts.push(v)[0] == verdicts[0]);
        assert(gs.push(g).drop_first() =~= gs.drop_first().push(g));
        assert(verdicts.push(v).drop_first() =~= verdicts.drop_first().push(v));
        lemma_retain_compiling_push(gs.drop_first(), verdicts.drop_first(), g, v);
        assert(spec_retain_compiling(gs.push(g), verdicts.push(v)) =~= spec_retain_compiling(
            gs,
            verdicts,
        ) + if v {
            seq![g]
        } else {
            Seq::<GeneratedMutantView>::empty()
        });
    }
}

/// Drop the mutants that failed to compile. With verification enabled, a
/// mutant whose verdict is negative is silently dropped before execution:
/// not counted as tested and not reported as an error. With verification
/// disabled, every mutant is kept.
pub fn retain_compiling(gs: Vec<GeneratedMutant>, verdicts: &Vec<bool>, verify_enabled: bool) -> (r:
    Vec<GeneratedMutant>)
    requires
        verdicts@.len() == gs@.len(),
    ensures
        !verify_enabled ==> gm_views(r@) == gm_views(gs@),
        verify_enabled ==> gm_views(r@) == spec_retain_compiling(gm_views(gs@), verdicts@),
{
    if !verify_enabled {
        return gs;
    }
    let mut r: Vec<GeneratedMutant> = Vec::new();
    let mut i: usize = 0;
    proof {
        assert(gm_views(gs@).take(0) =~= Seq::<GeneratedMutantView>::empty());
        assert(verdicts@.take(0) =~= Seq::<bool>::empty());
        assert(gm_views(r@) =~= spec_retain_compiling(gm_views(gs@).take(0), verdicts@.take(0)));
    }
    while i < gs.len()
        invariant
            i <= gs.len(),
            verdicts@.len() == gs@.len(),
            gm_views(r@) == spec_retain_compiling(gm_views(gs@).take(i as int), verdicts@.take(i as int)),
        decreases gs.len() - i,
    {
        let ghost pre = r@;
        if verdicts[i] {
            let g = clone_generated(&gs, i);
            r.push(g);
        }
        proof {
            assert(gm_views(gs@).take(i + 1) =~= gm_views(gs@).take(i as int).push(
                gm_views(gs@)[i as int],
            ));
            assert(verdicts@.take(i + 1) =~= verdicts@.take(i as int).push(verdicts@[i as int]));
            lemma_retain_compiling_push(
                gm_views(gs@).take(i as int),
                verdicts@.take(i as int),
                gm_views(gs@)[i as int],
                verdicts@[i as int],
            );
            if verdicts@[i as int] {
                let m1 = gm_views(r@);
                let m2 = spec_retain_compiling(gm_views(gs@).take(i + 1), verdicts@.take(i + 1));
                assert(gm_views(pre).len() == pre.len());
                assert(m1.len() == m2.len());
                assert forall|t: int| 0 <= t < m1.len() implies m1[t] == m2[t] by {
                    if t < m1.len() - 1 {
                        assert(m1[t] == gm_views(pre)[t]);
                    } else {
                        assert(m1[t] == r@[t]@);
                        assert(gm_views(gs@)[i as int] == gs@[i as int]@);
                    }
                }
                assert(m1 =~= m2);
            } else {
                assert(gm_views(r@) =~= spec_retain_compiling(
                    gm_views(gs@).take(i + 1),
                    verdicts@.take(i + 1),
                ));
            }
        }
        i += 1;
    }
    proof {
        assert(gm_views(gs@).take(gs@.len() as int) =~= gm_views(gs@));
        assert(verdicts@.take(gs@.len() as int) =~= verdicts@);
    }
    r
}

} // verus!

