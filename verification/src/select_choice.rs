//! A model, by plain values, of what an enum that derives `SelectChoice` and
//! `AsFormField` answers at run time: a value of the enum is the position of
//! its variant. The generated `AsFormField` impl (see `as_form_field`) cleans a
//! field value by `SelectChoice::from_str` and writes one by `SelectChoice::id`;
//! this module states those methods and their laws. Nothing ties it
//! mechanically to generated code.
use vstd::prelude::*;

verus! {

/// One variant of an enum that derives `SelectChoice`, with the settings of
/// its `#[select_choice(id = "..", name = "..")]` attribute, where it has one.
#[derive(Debug, Clone, PartialEq, Eq)]
pub struct ChoiceVariant {
    /// The variant's name.
    pub ident: String,
    /// The `id = ".."` setting.
    pub id: Option<String>,
    /// The `name = ".."` setting.
    pub name: Option<String>,
}

/// What a variant is known by: `id` in form data and field values, `name`
/// where it is shown to a user.
#[derive(Debug, Clone, PartialEq, Eq)]
pub struct Choice {
    pub id: String,
    pub name: String,
}

/// The id of a variant: its `id` setting, else the variant's own name.
pub open spec fn spec_choice_id(v: ChoiceVariant) -> Seq<char> {
    match v.id {
        Some(id) => id@,
        None => v.ident@,
    }
}

/// The display name of a variant: its `name` setting, else the variant's own name.
pub open spec fn spec_choice_name(v: ChoiceVariant) -> Seq<char> {
    match v.name {
        Some(name) => name@,
        None => v.ident@,
    }
}

/// `cs` holds, position by position, what the variants `vs` are known by.
pub open spec fn resolves(vs: Seq<ChoiceVariant>, cs: Seq<Choice>) -> bool {
    &&& cs.len() == vs.len()
    &&& forall|k: int|
        0 <= k < vs.len() ==> (#[trigger] cs[k]).id@ == spec_choice_id(vs[k]) && cs[k].name@
            == spec_choice_name(vs[k])
}

/// Why a form field's value does not give a value of the enum.
#[derive(Debug, Clone, PartialEq, Eq)]
pub enum FieldValidationError {
    /// The field has no value, or an empty one.
    Required,
    /// The value is no variant's id; it is carried along.
    InvalidValue(String),
}

/// A [`FieldValidationError`] with its text taken by value.
pub enum FieldErrorView {
    Required,
    InvalidValue(Seq<char>),
}

impl View for FieldValidationError {
    type V = FieldErrorView;

    open spec fn view(&self) -> FieldErrorView {
        match self {
            FieldValidationError::Required => FieldErrorView::Required,
            FieldValidationError::InvalidValue(s) => FieldErrorView::InvalidValue(s@),
        }
    }
}

/// An answer about a variant position, with the error taken by value.
pub open spec fn answer_view(r: Result<usize, FieldValidationError>) -> Result<int, FieldErrorView> {
    match r {
        Ok(i) => Ok(i as int),
        Err(e) => Err(e@),
    }
}

/// `i` is the first variant whose id is `s`.
pub open spec fn is_first_match(cs: Seq<Choice>, s: Seq<char>, i: int) -> bool {
    &&& 0 <= i < cs.len()
    &&& cs[i].id@ == s
    &&& forall|j: int| 0 <= j < i ==> (#[trigger] cs[j]).id@ != s
}

/// `SelectChoice::from_str`: the first variant whose id is `s`, else
/// `InvalidValue(s)`.
pub open spec fn spec_from_str(cs: Seq<Choice>, s: Seq<char>) -> Result<int, FieldErrorView> {
    if exists|i: int| is_first_match(cs, s, i) {
        Ok(choose|i: int| is_first_match(cs, s, i))
    } else {
        Err(FieldErrorView::InvalidValue(s))
    }
}

/// `AsFormField::clean_value` of a select field holding `value`: `Required`
/// when there is no value or an empty one, else `from_str` of the value.
pub open spec fn spec_clean_value(cs: Seq<Choice>, value: Option<Seq<char>>) -> Result<
    int,
    FieldErrorView,
> {
    match value {
        None => Err(FieldErrorView::Required),
        Some(s) => if s.len() == 0 {
            Err(FieldErrorView::Required)
        } else {
            spec_from_str(cs, s)
        },
    }
}

/// No two variants share an id.
pub open spec fn ids_distinct(cs: Seq<Choice>) -> bool {
    forall|j: int, k: int|
        0 <= j < cs.len() && 0 <= k < cs.len() && j != k ==> (#[trigger] cs[j]).id@ != (
        #[trigger] cs[k]).id@
}

/// There is at most one first variant with a given id.
pub proof fn lemma_first_match_unique(cs: Seq<Choice>, s: Seq<char>, i: int, k: int)
    requires
        is_first_match(cs, s, i),
        is_first_match(cs, s, k),
    ensures
        i == k,
{
    if i < k {
        assert(cs[i].id@ != s);
    } else if k < i {
        assert(cs[k].id@ != s);
    }
}

/// `from_str` never answers with a variant of another id: for the id of any
/// variant it finds a variant, at or before that one, with that same id.
pub proof fn lemma_from_str_finds_same_id(cs: Seq<Choice>, i: int)
    requires
        0 <= i < cs.len(),
    ensures
        spec_from_str(cs, cs[i].id@) matches Ok(j) && 0 <= j <= i && cs[j].id@ == cs[i].id@,
{
    let s = cs[i].id@;
    lemma_first_match_exists(cs, s, i);
    let j = choose|j: int| is_first_match(cs, s, j);
    if j > i {
        assert(cs[i].id@ != s);
    }
}

/// If some variant has the id `s`, a first one has it, at or before it.
proof fn lemma_first_match_exists(cs: Seq<Choice>, s: Seq<char>, i: int)
    requires
        0 <= i < cs.len(),
        cs[i].id@ == s,
    ensures
        exists|j: int| 0 <= j <= i && is_first_match(cs, s, j),
    decreases i,
{
    if exists|j: int| 0 <= j < i && cs[j].id@ == s {
        let j = choose|j: int| 0 <= j < i && cs[j].id@ == s;
        lemma_first_match_exists(cs, s, j);
    } else {
        assert(is_first_match(cs, s, i));
    }
}

/// When no two variants share an id and a variant's id is not empty, the
/// field value written for that variant is cleaned back into that variant.
pub proof fn lemma_field_value_round_trip(cs: Seq<Choice>, i: int)
    requires
        0 <= i < cs.len(),
        ids_distinct(cs),
        cs[i].id@.len() > 0,
    ensures
        spec_clean_value(cs, Some(cs[i].id@)) == Ok::<int, FieldErrorView>(i),
{
    lemma_from_str_finds_same_id(cs, i);
    let j = spec_from_str(cs, cs[i].id@)->Ok_0;
    if j != i {
        assert(cs[j].id@ != cs[i].id@);
    }
}

/// An enum whose variants set no `id` is known by its variant names; as
/// these are distinct and not empty, every variant's field value is cleaned
/// back into that variant.
pub proof fn lemma_default_ids_round_trip(vs: Seq<ChoiceVariant>, cs: Seq<Choice>, i: int)
    requires
        resolves(vs, cs),
        0 <= i < vs.len(),
        forall|k: int| 0 <= k < vs.len() ==> (#[trigger] vs[k]).id is None,
        forall|k: int| 0 <= k < vs.len() ==> (#[trigger] vs[k]).ident@.len() > 0,
        forall|j: int, k: int|
            0 <= j < vs.len() && 0 <= k < vs.len() && j != k ==> (#[trigger] vs[j]).ident@ != (
            #[trigger] vs[k]).ident@,
    ensures
        cs[i].id@ == vs[i].ident@,
        spec_clean_value(cs, Some(cs[i].id@)) == Ok::<int, FieldErrorView>(i),
{
    assert(cs[i].id@ == spec_choice_id(vs[i]));
    assert forall|j: int, k: int|
        0 <= j < cs.len() && 0 <= k < cs.len() && j != k implies (#[trigger] cs[j]).id@ != (
        #[trigger] cs[k]).id@ by {
        assert(cs[j].id@ == spec_choice_id(vs[j]));
        assert(cs[k].id@ == spec_choice_id(vs[k]));
        assert(vs[j].ident@ != vs[k].ident@);
    }
    lemma_field_value_round_trip(cs, i);
}

/// An enum deriving `SelectChoice` (and `AsFormField`), by what its variants,
/// in declaration order, are known by. A value of the enum is the position of
/// its variant.
pub struct SelectChoices {
    choices: Vec<Choice>,
}

impl View for SelectChoices {
    type V = Seq<Choice>;

    closed spec fn view(&self) -> Seq<Choice> {
        self.choices@
    }
}

/// The id and display name of one variant.
pub fn resolve_choice(v: &ChoiceVariant) -> (c: Choice)
    ensures
        c.id@ == spec_choice_id(*v),
        c.name@ == spec_choice_name(*v),
{
    let id = match &v.id {
        Some(id) => id.clone(),
        None => v.ident.clone(),
    };
    let name = match &v.name {
        Some(name) => name.clone(),
        None => v.ident.clone(),
    };
    Choice { id, name }
}

impl SelectChoices {
    /// The choices of an enum with the variants `vs`, in declaration order.
    pub fn from_variants(vs: &Vec<ChoiceVariant>) -> (r: SelectChoices)
        ensures
            resolves(vs@, r@),
    {
        let mut choices: Vec<Choice> = Vec::new();
        let mut i: usize = 0;
        while i < vs.len()
            invariant
                i <= vs.len(),
                choices@.len() == i,
                forall|k: int|
                    0 <= k < i ==> (#[trigger] choices@[k]).id@ == spec_choice_id(vs@[k])
                        && choices@[k].name@ == spec_choice_name(vs@[k]),
            decreases vs.len() - i,
        {
            let c = resolve_choice(&vs[i]);
            choices.push(c);
            i = i + 1;
        }
        SelectChoices { choices }
    }

    /// The number of variants.
    pub fn len(&self) -> (n: usize)
        ensures
            n == self@.len(),
    {
        self.choices.len()
    }

    /// `SelectChoice::default_choices`: every variant, once each, in
    /// declaration order.
    pub fn default_choices(&self) -> (r: Vec<usize>)
        ensures
            r@.len() == self@.len(),
            forall|k: int| 0 <= k < r@.len() ==> #[trigger] r@[k] == k,
    {
        let mut r: Vec<usize> = Vec::new();
        let mut i: usize = 0;
        while i < self.choices.len()
            invariant
                i <= self.choices@.len(),
                r@.len() == i,
                forall|k: int| 0 <= k < i ==> #[trigger] r@[k] == k,
            decreases self.choices@.len() - i,
        {
            r.push(i);
            i = i + 1;
        }
        r
    }

    /// `SelectChoice::id` of the variant at `index`.
    pub fn id(&self, index: usize) -> (s: String)
        requires
            index < self@.len(),
        ensures
            s@ == self@[index as int].id@,
    {
        self.choices[index].id.clone()
    }

    /// `SelectChoice::to_string` of the variant at `index`: its display name.
    pub fn to_string(&self, index: usize) -> (s: String)
        requires
            index < self@.len(),
        ensures
            s@ == self@[index as int].name@,
    {
        self.choices[index].name.clone()
    }

    /// `SelectChoice::from_str`: the first variant whose id is `s`, else
    /// `InvalidValue(s)`.
    pub fn from_str(&self, s: &str) -> (r: Result<usize, FieldValidationError>)
        ensures
            answer_view(r) == spec_from_str(self@, s@),
    {
        let key = s.to_owned();
        let mut i: usize = 0;
        while i < self.choices.len()
            invariant
                i <= self.choices@.len(),
                key@ == s@,
                forall|j: int| 0 <= j < i ==> (#[trigger] self.choices@[j]).id@ != s@,
            decreases self.choices@.len() - i,
        {
            if self.choices[i].id == key {
                proof {
                    assert(is_first_match(self@, s@, i as int));
                    let k = choose|k: int| is_first_match(self@, s@, k);
                    lemma_first_match_unique(self@, s@, i as int, k);
                }
                return Ok(i);
            }
            i = i + 1;
        }
        assert(!exists|k: int| is_first_match(self@, s@, k)) by {
            assert forall|k: int| !is_first_match(self@, s@, k) by {
                if 0 <= k < self@.len() {
                    assert(self.choices@[k].id@ != s@);
                }
            }
        }
        Err(FieldValidationError::InvalidValue(key))
    }

    /// `AsFormField::clean_value` of a select field that holds `value`:
    /// `Required` when there is no value or an empty one, else `from_str` of it.
    pub fn clean_value(&self, value: Option<&str>) -> (r: Result<usize, FieldValidationError>)
        ensures
            answer_view(r) == spec_clean_value(
                self@,
                match value {
                    Some(s) => Some(s@),
                    None => None,
                },
            ),
    {
        match value {
            Some(s) => {
                if s.is_empty() {
                    return Err(FieldValidationError::Required);
                }
                self.from_str(s)
            },
            None => Err(FieldValidationError::Required),
        }
    }

    /// `AsFormField::to_field_value` of the variant at `index`: its id.
    pub fn to_field_value(&self, index: usize) -> (s: String)
        requires
            index < self@.len(),
        ensures
            s@ == self@[index as int].id@,
    {
        self.id(index)
    }
}

/// `from_str` answers with a variant only when that variant's id is exactly
/// the value, and the first such; it answers with a variant whenever some id
/// is exactly the value; otherwise it refuses with the value itself.
pub proof fn lemma_from_str_exact(cs: Seq<Choice>, s: Seq<char>)
    ensures
        spec_from_str(cs, s) matches Ok(i) ==> 0 <= i < cs.len() && cs[i].id@ == s && forall|j: int|
            0 <= j < i ==> (#[trigger] cs[j]).id@ != s,
        (exists|i: int| 0 <= i < cs.len() && (#[trigger] cs[i]).id@ == s) ==> spec_from_str(cs, s) is Ok,
        (forall|i: int| 0 <= i < cs.len() ==> (#[trigger] cs[i]).id@ != s) ==> spec_from_str(cs, s)
            == Err::<int, FieldErrorView>(FieldErrorView::InvalidValue(s)),
        spec_from_str(cs, s) is Err ==> spec_from_str(cs, s) == Err::<int, FieldErrorView>(
            FieldErrorView::InvalidValue(s),
        ),
{
    if exists|i: int| 0 <= i < cs.len() && (#[trigger] cs[i]).id@ == s {
        let i = choose|i: int| 0 <= i < cs.len() && (#[trigger] cs[i]).id@ == s;
        lemma_first_match_exists(cs, s, i);
    }
    if (forall|i: int| 0 <= i < cs.len() ==> (#[trigger] cs[i]).id@ != s) {
        assert(!exists|i: int| is_first_match(cs, s, i));
    }
}

/// Cleaning a select field: no value, or an empty one, is `Required`; any
/// other value gives exactly what `from_str` gives for it, so an accepted
/// value is exactly the id of the variant it gives, and a value that is no
/// variant's id is refused with itself.
pub proof fn lemma_clean_value_exact(cs: Seq<Choice>, value: Option<Seq<char>>)
    ensures
        value is None ==> spec_clean_value(cs, value) == Err::<int, FieldErrorView>(
            FieldErrorView::Required,
        ),
        value matches Some(s) && s.len() == 0 ==> spec_clean_value(cs, value) == Err::<
            int,
            FieldErrorView,
        >(FieldErrorView::Required),
        value matches Some(s) ==> (s.len() > 0 ==> spec_clean_value(cs, value) == spec_from_str(cs, s)),
        value matches Some(s) ==> (s.len() > 0 ==> (spec_clean_value(cs, value) matches Ok(i) ==> 0
            <= i < cs.len() && cs[i].id@ == s)),
        value matches Some(s) ==> (s.len() > 0 && (forall|i: int|
            0 <= i < cs.len() ==> (#[trigger] cs[i]).id@ != s) ==> spec_clean_value(cs, value)
            == Err::<int, FieldErrorView>(FieldErrorView::InvalidValue(s))),
{
    if let Some(s) = value {
        lemma_from_str_exact(cs, s);
    }
}

/// What a variant is known by: its `id` setting, else its own name; and its
/// `name` setting, else its own name, whatever its `id` setting.
pub proof fn lemma_choice_defaults(v: ChoiceVariant)
    ensures
        v.id matches Some(id) ==> spec_choice_id(v) == id@,
        v.id is None ==> spec_choice_id(v) == v.ident@,
        v.name matches Some(name) ==> spec_choice_name(v) == name@,
        v.name is None ==> spec_choice_name(v) == v.ident@,
{
}

/// The choices of an enum follow its variants one for one: each is known by
/// its `id` setting, else its own name, and shown by its `name` setting,
/// else its own name.
pub proof fn lemma_resolves_defaults(vs: Seq<ChoiceVariant>, cs: Seq<Choice>)
    requires
        resolves(vs, cs),
    ensures
        cs.len() == vs.len(),
        forall|k: int|
            0 <= k < vs.len() ==> (#[trigger] cs[k]).id@ == (match vs[k].id {
                Some(id) => id@,
                None => vs[k].ident@,
            }) && cs[k].name@ == (match vs[k].name {
                Some(name) => name@,
                None => vs[k].ident@,
            }),
{
    assert forall|k: int| 0 <= k < vs.len() implies (#[trigger] cs[k]).id@ == (match vs[k].id {
        Some(id) => id@,
        None => vs[k].ident@,
    }) && cs[k].name@ == (match vs[k].name {
        Some(name) => name@,
        None => vs[k].ident@,
    }) by {
        lemma_choice_defaults(vs[k]);
    }
}

} // verus!
