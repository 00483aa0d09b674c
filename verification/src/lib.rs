//! Derive standard traits with custom generic bounds: the attribute rules,
//! the analysis of items and the text of the generated `impl`s.

pub mod trait_;
pub mod util;

pub use trait_::{Features, Trait};
pub mod model;
pub mod error;
pub mod meta;
pub mod attr;
pub mod syntax;
pub mod tokens;
pub mod data;
pub mod item;
pub mod input;
pub mod gen;
pub mod impl_;

use vstd::prelude::*;

use crate::attr::item::{flat_traits, DeriveTraitV, DeriveWhereV};
use crate::error::{DeriveError, ErrV};
use crate::impl_::{impl_text, Impl};
use crate::input::{lemma_input_wf, spec_input, Input};
use crate::item::ItemV;
use crate::model::{GenericsInput, ItemInput};
use crate::syntax::{reader_ok, Reader, Reads};

verus! {

/// The implementations of the traits `ts` asked for by `dw`, each followed
/// by a space.
pub open spec fn derive_where_impls(
    dw: DeriveWhereV,
    ts: Seq<DeriveTraitV>,
    item: ItemV,
    generics: GenericsInput,
    features: Features,
) -> Seq<char>
    decreases ts.len(),
{
    if ts.len() == 0 {
        seq![]
    } else {
        derive_where_impls(dw, ts.drop_last(), item, generics, features) + impl_text(
            dw,
            ts.last(),
            item,
            generics,
            features,
        ) + " "@
    }
}

/// The implementations asked for by all the attributes `dws`, in order.
pub open spec fn all_impls(
    dws: Seq<DeriveWhereV>,
    item: ItemV,
    generics: GenericsInput,
    features: Features,
) -> Seq<char>
    decreases dws.len(),
{
    if dws.len() == 0 {
        seq![]
    } else {
        all_impls(dws.drop_last(), item, generics, features) + derive_where_impls(
            dws.last(),
            dws.last().traits,
            item,
            generics,
            features,
        )
    }
}

/// What the macro expands to for `input`: the implementations, or the
/// error it reports.
pub open spec fn derive_where_output(input: ItemInput, features: Features, rd: Reader) -> Result<
    Seq<char>,
    ErrV,
> {
    match spec_input(input, features, rd) {
        Err(e) => Err(e),
        Ok(iv) => Ok(all_impls(iv.derive_wheres, iv.item, input.generics, features)),
    }
}

/// Each trait of each attribute is among all the traits asked for.
pub proof fn lemma_flat_traits_has(dws: Seq<DeriveWhereV>, i: int, j: int)
    requires
        0 <= i < dws.len(),
        0 <= j < dws[i].traits.len(),
    ensures
        exists|k: int|
            0 <= k < flat_traits(dws).len() && #[trigger] flat_traits(dws)[k]
                == dws[i].traits[j].trait_(),
    decreases dws.len(),
{
    let prev = flat_traits(dws.drop_last());
    let own = dws.last().plain_traits();
    if i == dws.len() - 1 {
        let k = prev.len() + j;
        assert(flat_traits(dws)[k] == own[j]);
    } else {
        assert(dws.drop_last()[i] == dws[i]);
        lemma_flat_traits_has(dws.drop_last(), i, j);
        let k = choose|k: int|
            0 <= k < prev.len() && #[trigger] prev[k] == dws[i].traits[j].trait_();
        assert(flat_traits(dws)[k] == prev[k]);
    }
}

/// Generates the implementations for the annotated item `input`, or the
/// error to report, for whatever `syn` answers to the pieces of syntax that
/// the attributes embed.
pub fn derive_where_internal(input: &ItemInput, features: Features) -> (r: Result<
    String,
    DeriveError,
>)
    ensures
        exists|rd: Reader|
            #[trigger] reader_ok(rd) && match (r, derive_where_output(*input, features, rd)) {
                (Ok(x), Ok(y)) => x@ == y,
                (Err(x), Err(y)) => x@ == y,
                _ => false,
            },
{
    let mut reads = Reads::new();
    let r = derive_where_with(input, features, &mut reads);
    proof {
        reads.lemma_reader();
        let rd = reads.reader();
        assert(reads.agrees(rd));
    }
    r
}

/// Generates the implementations for the annotated item `input`, or the
/// error to report, recording in `reads` what `syn` answered.
#[verifier::rlimit(40)]
pub fn derive_where_with(input: &ItemInput, features: Features, reads: &mut Reads) -> (r: Result<
    String,
    DeriveError,
>)
    requires
        old(reads).wf(),
    ensures
        final(reads).wf(),
        final(reads).extends(*old(reads)),
        forall|rd: Reader|
            #[trigger] final(reads).agrees(rd) ==> match (
                r,
                derive_where_output(*input, features, rd),
            ) {
                (Ok(x), Ok(y)) => x@ == y,
                (Err(x), Err(y)) => x@ == y,
                _ => false,
            },
{
    let parsed = match Input::from_input(input, features, reads) {
        Ok(p) => p,
        Err(e) => {
            return Err(e);
        },
    };
    let ghost rd0 = reads.reader();
    proof {
        reads.lemma_reader();
        lemma_input_wf(*input, features, rd0);
    }
    let ghost iv = parsed@;
    let ghost dwv = iv.derive_wheres;
    let mut out = String::new();
    let mut i: usize = 0;
    while i < parsed.derive_wheres.len()
        invariant
            i <= parsed.derive_wheres@.len(),
            iv == parsed@,
            iv == spec_input(*input, features, rd0)->Ok_0,
            iv.wf(),
            dwv == iv.derive_wheres,
            out@ == all_impls(dwv.take(i as int), iv.item, input.generics, features),
        decreases parsed.derive_wheres.len() - i,
    {
        let dw = &parsed.derive_wheres[i];
        assert(dwv[i as int] == dw@);
        let mut j: usize = 0;
        let ghost start = out@;
        while j < dw.traits.len()
            invariant
                j <= dw@.traits.len(),
                i < parsed.derive_wheres@.len(),
                iv == parsed@,
                iv.wf(),
                dwv == iv.derive_wheres,
                dwv[i as int] == dw@,
                out@ == start + derive_where_impls(
                    dw@,
                    dw@.traits.take(j as int),
                    iv.item,
                    input.generics,
                    features,
                ),
            decreases dw.traits.len() - j,
        {
            proof {
                lemma_flat_traits_has(dwv, i as int, j as int);
                assert(dw@.traits.take(j + 1).drop_last() =~= dw@.traits.take(j as int));
            }
            let imp = Impl::new(dw, &dw.traits[j], &parsed, &input.generics, features);
            out.append(imp.generate_impl().as_str());
            out.append(" ");
            j = j + 1;
        }
        proof {
            assert(dw@.traits.take(dw@.traits.len() as int) =~= dw@.traits);
            assert(dwv.take(i + 1).drop_last() =~= dwv.take(i as int));
        }
        i = i + 1;
    }
    assert(dwv.take(dwv.len() as int) =~= dwv);
    Ok(out)
}

} // verus!
