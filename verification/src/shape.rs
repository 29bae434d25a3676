use vstd::prelude::*;

verus! {

/// The fields of a struct or of an enum variant, by kind and number.
#[derive(Debug, Clone, Copy, PartialEq, Eq)]
pub enum FieldsShape {
    /// No braces or parentheses at all: `Variant`.
    Unit,
    /// Braced fields: `Variant { a: A, .. }`, with their number.
    Named(usize),
    /// Parenthesised fields: `Variant(A, ..)`, with their number.
    Unnamed(usize),
}

impl FieldsShape {
    /// Written with no braces or parentheses.
    pub fn is_unit(&self) -> (b: bool)
        ensures
            b == (*self == FieldsShape::Unit),
    {
        match self {
            FieldsShape::Unit => true,
            _ => false,
        }
    }
}

/// One variant of an enum: its name and its fields.
#[derive(Debug, Clone, PartialEq, Eq)]
pub struct VariantShape {
    pub ident: String,
    pub fields: FieldsShape,
}

/// The body of the item a derive is applied to.
#[derive(Debug, Clone, PartialEq, Eq)]
pub enum DataShape {
    /// An enum, with its variants in declaration order.
    Enum(Vec<VariantShape>),
    Struct,
    Union,
}

/// The item a derive is applied to, as far as the derives read it.
#[derive(Debug, Clone, PartialEq, Eq)]
pub struct DeriveShape {
    /// The name of the item.
    pub ident: String,
    pub data: DataShape,
}

/// The item passes `darling`'s `supports(enum_unit)` shape rule: it is an
/// enum, and every variant is written with no braces or parentheses.
pub open spec fn spec_supports_enum_unit(data: DataShape) -> bool {
    match data {
        DataShape::Enum(vs) => forall|i: int|
            0 <= i < vs@.len() ==> (#[trigger] vs@[i]).fields == FieldsShape::Unit,
        _ => false,
    }
}

/// The positions, in declaration order, of the variants of `vs` written with
/// braces or parentheses: those the shape rule reports, one refusal each.
pub open spec fn non_unit_positions(vs: Seq<VariantShape>) -> Seq<usize>
    decreases vs.len(),
{
    if vs.len() == 0 {
        Seq::empty()
    } else {
        let rest = non_unit_positions(vs.drop_last());
        if vs.last().fields != FieldsShape::Unit {
            rest.push((vs.len() - 1) as usize)
        } else {
            rest
        }
    }
}

/// The positions of the variants written with braces or parentheses.
pub fn non_unit_variants(vs: &Vec<VariantShape>) -> (ps: Vec<usize>)
    ensures
        ps@ == non_unit_positions(vs@),
{
    let mut ps: Vec<usize> = Vec::new();
    let mut i: usize = 0;
    assert(vs@.take(0) =~= Seq::<VariantShape>::empty());
    while i < vs.len()
        invariant
            i <= vs.len(),
            ps@ == non_unit_positions(vs@.take(i as int)),
        decreases vs.len() - i,
    {
        assert(vs@.take(i + 1).drop_last() =~= vs@.take(i as int));
        if !vs[i].fields.is_unit() {
            ps.push(i);
        }
        i = i + 1;
    }
    assert(vs@.take(vs.len() as int) =~= vs@);
    ps
}

/// There are no such positions exactly when every variant is written
/// without braces or parentheses.
pub proof fn lemma_no_positions_iff_all_unit(vs: Seq<VariantShape>)
    ensures
        non_unit_positions(vs).len() == 0 <==> forall|i: int|
            0 <= i < vs.len() ==> (#[trigger] vs[i]).fields == FieldsShape::Unit,
    decreases vs.len(),
{
    if vs.len() > 0 {
        let init = vs.drop_last();
        lemma_no_positions_iff_all_unit(init);
        if vs.last().fields == FieldsShape::Unit {
            if non_unit_positions(init).len() == 0 {
                assert forall|i: int| 0 <= i < vs.len() implies (#[trigger] vs[i]).fields
                    == FieldsShape::Unit by {
                    if i < vs.len() - 1 {
                        assert(init[i] == vs[i]);
                    }
                }
            } else {
                let i = choose|i: int| 0 <= i < init.len() && (#[trigger] init[i]).fields
                    != FieldsShape::Unit;
                assert(vs[i] == init[i]);
            }
        }
    }
}

/// The positions are exactly those of the variants written with braces or
/// parentheses, each once, in increasing order.
pub proof fn lemma_non_unit_positions_exact(vs: Seq<VariantShape>)
    requires
        vs.len() <= usize::MAX,
    ensures
        forall|k: int|
            0 <= k < non_unit_positions(vs).len() ==> (#[trigger] non_unit_positions(vs)[k]) < vs.len()
                && vs[non_unit_positions(vs)[k] as int].fields != FieldsShape::Unit,
        forall|k: int, l: int|
            0 <= k < l < non_unit_positions(vs).len() ==> #[trigger] non_unit_positions(vs)[k]
                < #[trigger] non_unit_positions(vs)[l],
        forall|i: int|
            0 <= i < vs.len() && (#[trigger] vs[i]).fields != FieldsShape::Unit
                ==> non_unit_positions(vs).contains(i as usize),
    decreases vs.len(),
{
    if vs.len() > 0 {
        let init = vs.drop_last();
        lemma_non_unit_positions_exact(init);
        let rest = non_unit_positions(init);
        assert forall|i: int| 0 <= i < init.len() implies #[trigger] init[i] == vs[i] by {}
        if vs.last().fields != FieldsShape::Unit {
            let ps = rest.push((vs.len() - 1) as usize);
            assert forall|i: int|
                0 <= i < vs.len() && (#[trigger] vs[i]).fields != FieldsShape::Unit implies ps.contains(
                i as usize,
            ) by {
                if i < vs.len() - 1 {
                    assert(init[i] == vs[i]);
                    let k = choose|k: int| 0 <= k < rest.len() && rest[k] == i as usize;
                    assert(ps[k] == i as usize);
                } else {
                    assert(ps[rest.len() as int] == i as usize);
                }
            }
        } else {
            assert forall|i: int|
                0 <= i < vs.len() && (#[trigger] vs[i]).fields != FieldsShape::Unit implies rest.contains(
                i as usize,
            ) by {
                assert(i < vs.len() - 1);
                assert(init[i] == vs[i]);
            }
        }
    }
}

} // verus!
