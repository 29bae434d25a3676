use vstd::prelude::*;

verus! {

/// Whether `c` has the Unicode property XID_Start, by the tables of
/// `unicode-ident`, which `proc-macro2` consults when it builds an identifier.
pub uninterp spec fn is_xid_start(c: char) -> bool;

/// Whether `c` has the Unicode property XID_Continue, by the tables of
/// `unicode-ident`.
pub uninterp spec fn is_xid_continue(c: char) -> bool;

/// Calls `unicode_ident::is_xid_start`; its result is taken, unproved, to be
/// the named table lookup `is_xid_start` of the same character.
#[verifier::external_body]
fn xid_start(c: char) -> (b: bool)
    ensures
        b == is_xid_start(c),
{
    unicode_ident::is_xid_start(c)
}

/// Calls `unicode_ident::is_xid_continue`; its result is taken, unproved, to
/// be the named table lookup `is_xid_continue` of the same character.
#[verifier::external_body]
fn xid_continue(c: char) -> (b: bool)
    ensures
        b == is_xid_continue(c),
{
    unicode_ident::is_xid_continue(c)
}

/// `s` is an identifier by the rule of `proc-macro2`'s own check (its
/// fallback `validate_ident`, used outside a compiler session): it is not
/// empty, not made of ASCII digits alone, starts with `_` or an XID_Start
/// character, and goes on with XID_Continue characters. Inside a compiler
/// session `proc_macro2::Ident::new` hands the check to the compiler's
/// `proc_macro::Ident::new`, whose rule is not stated here.
pub open spec fn is_identifier(s: Seq<char>) -> bool {
    &&& s.len() > 0
    &&& !(forall|i: int| 0 <= i < s.len() ==> '0' <= #[trigger] s[i] <= '9')
    &&& (s[0] == '_' || is_xid_start(s[0]))
    &&& forall|i: int| 1 <= i < s.len() ==> is_xid_continue(#[trigger] s[i])
}

/// Decides [`is_identifier`].
pub fn check_identifier(s: &str) -> (b: bool)
    ensures
        b == is_identifier(s@),
{
    let n = s.unicode_len();
    if n == 0 {
        return false;
    }
    let mut all_digits = true;
    let mut i: usize = 0;
    while i < n
        invariant
            n == s@.len(),
            i <= n,
            all_digits == forall|j: int| 0 <= j < i ==> '0' <= #[trigger] s@[j] <= '9',
        decreases n - i,
    {
        let c = s.get_char(i);
        if !('0' <= c && c <= '9') {
            all_digits = false;
        }
        i = i + 1;
    }
    if all_digits {
        return false;
    }
    let first = s.get_char(0);
    if !(first == '_' || xid_start(first)) {
        return false;
    }
    let mut k: usize = 1;
    while k < n
        invariant
            n == s@.len(),
            1 <= k <= n,
            forall|j: int| 1 <= j < k ==> is_xid_continue(#[trigger] s@[j]),
        decreases n - k,
    {
        if !xid_continue(s.get_char(k)) {
            return false;
        }
        k = k + 1;
    }
    true
}

/// Where the `cot` crate is found, as seen from the crate that expands a
/// derive: `cot` itself, or a dependency known under an identifier.
#[derive(Debug, PartialEq, Eq)]
pub struct CotCrate {
    name: Option<String>,
}

impl View for CotCrate {
    /// `None` inside `cot` itself, else the dependency's name.
    type V = Option<Seq<char>>;

    closed spec fn view(&self) -> Option<Seq<char>> {
        match self.name {
            Some(name) => Some(name@),
            None => None,
        }
    }
}

impl CotCrate {
    #[verifier::type_invariant]
    closed spec fn name_is_identifier(self) -> bool {
        match self.name {
            Some(name) => is_identifier(name@),
            None => true,
        }
    }

    /// The derive is expanded inside `cot` itself.
    pub fn itself() -> (krate: CotCrate)
        ensures
            krate@ == None::<Seq<char>>,
    {
        CotCrate { name: None }
    }

    /// `cot` is a dependency under `name`; refused (`None`) when `name` is no
    /// identifier.
    pub fn named(name: String) -> (krate: Option<CotCrate>)
        ensures
            krate is Some <==> is_identifier(name@),
            krate matches Some(k) ==> k@ == Some(name@),
    {
        if check_identifier(name.as_str()) {
            Some(CotCrate { name: Some(name) })
        } else {
            None
        }
    }
}

/// The path, as source text, by which generated code names the `cot` crate.
pub open spec fn spec_cot_path(krate: Option<Seq<char>>) -> Seq<char> {
    match krate {
        None => "::cot"@,
        Some(name) => "::"@ + name,
    }
}

/// The absolute path under which generated code reaches `cot`: `::cot` when
/// expanding inside `cot`, else `::` followed by the name of the dependency.
pub fn cot_ident(krate: &CotCrate) -> (path: String)
    ensures
        path@ == spec_cot_path(krate@),
{
    match &krate.name {
        None => String::from_str("::cot"),
        Some(name) => {
            let mut path = String::from_str("::");
            path.append(name.as_str());
            path
        },
    }
}

/// A name is accepted exactly when it is not empty, not made of ASCII digits
/// alone, starts with `_` or an XID_Start character, and every later
/// character, the last one included, is XID_Continue.
pub proof fn lemma_identifier_rule(s: Seq<char>)
    ensures
        is_identifier(s) ==> s.len() > 0,
        is_identifier(s) ==> s[0] == '_' || is_xid_start(s[0]),
        is_identifier(s) ==> forall|i: int| 1 <= i < s.len() ==> is_xid_continue(#[trigger] s[i]),
        is_identifier(s) ==> exists|i: int| 0 <= i < s.len() && !('0' <= #[trigger] s[i] <= '9'),
        (s.len() > 0 && (s[0] == '_' || is_xid_start(s[0])) && (forall|i: int|
            1 <= i < s.len() ==> is_xid_continue(#[trigger] s[i])) && (exists|i: int|
            0 <= i < s.len() && !('0' <= #[trigger] s[i] <= '9'))) ==> is_identifier(s),
{
}

/// A dependency name makes the path `::<name>`, and `cot` itself `::cot`.
pub proof fn lemma_cot_path(krate: Option<Seq<char>>)
    ensures
        krate is None ==> spec_cot_path(krate) == "::cot"@,
        krate matches Some(name) ==> spec_cot_path(krate) == "::"@ + name,
{
}

} // verus!
