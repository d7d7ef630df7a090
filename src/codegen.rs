//! Checking a data-holder's injection annotations and rendering its dispatch routine.
//!
//! A data-holder is described by plain values (`HolderDecl`): its name, whether
//! it is a struct, and for each field its name and attributes. `expand` takes
//! that description and the text of the type-level annotation (the enum path),
//! and either fails with the first fault found, or says which attribute to take
//! off each field and gives the source text of the `Injectable` implementation.
use vstd::prelude::*;

verus! {

/// One attribute of a field: the identifier its path consists of, where the
/// path is a single plain identifier, and the text of its argument tokens
/// (for `#[inject(Model::Name)]`: `inject` and `(Model::Name)`).
pub struct AttrDecl {
    pub ident: Option<String>,
    pub tokens: String,
}

/// One field of a data-holder: its name (`None` in a tuple struct) and its attributes.
pub struct FieldDecl {
    pub ident: Option<String>,
    pub attrs: Vec<AttrDecl>,
}

/// The shape of a type that carries the type-level annotation.
pub struct HolderDecl {
    pub name: String,
    pub is_struct: bool,
    pub fields: Vec<FieldDecl>,
}

/// A parsed field annotation: the path as written, and the identifiers of its
/// segments (the enclosing enum's path, then the variant).
pub struct EnumMember {
    pub path: String,
    pub segments: Vec<String>,
}

/// What a successful expansion hands back.
pub struct Expansion {
    /// For each field, the position of the injection attribute to take off it.
    pub removed: Vec<Option<usize>>,
    /// The implementation of `Injectable` for the data-holder, as source text.
    pub code: String,
}

/// Why a single annotated field was refused.
pub enum FieldFault {
    /// The field has no name.
    Unnamed,
    /// The annotation's argument is not a parenthesized path.
    InvalidAnnotation { message: String },
    /// The annotation's path has fewer than two segments.
    Malformed,
    /// The annotation names a member of another enum than the type-level one.
    Inconsistent,
}

/// Why generation failed for a data-holder.
pub enum GenError {
    /// The type-level annotation is not a path.
    InvalidEnumPath { message: String },
    /// The type-level annotation stands on something other than a struct.
    UnsupportedTarget,
    /// The first field, in declaration order, whose annotation was refused.
    Field { index: usize, fault: FieldFault },
}

/// The identifiers of the segments of the Rust path `s`, or `None` where `s`
/// does not parse as a path.
pub uninterp spec fn path_idents(s: Seq<char>) -> Option<Seq<Seq<char>>>;

/// Relies on `syn::parse_str::<syn::Path>`: parses `s` as a path, and on
/// success yields the identifier of each segment, in order; a parsed path has
/// at least one segment.
#[verifier::external_body]
fn parse_path(s: &str) -> (r: Result<Vec<String>, String>)
    ensures
        match r {
            Ok(v) => path_idents(s@) == Some(idents_view(v@)) && v@.len() >= 1,
            Err(_) => path_idents(s@) is None,
        },
{
    match syn::parse_str::<syn::Path>(s) {
        Ok(p) => Ok(p.segments.iter().map(|seg| seg.ident.to_string()).collect()),
        Err(e) => Err(e.to_string()),
    }
}

/// The text of each identifier.
pub open spec fn idents_view(v: Seq<String>) -> Seq<Seq<char>> {
    v.map_values(|s: String| s@)
}

/// A position, as a mathematical integer.
pub open spec fn opt_int(o: Option<usize>) -> Option<int> {
    match o {
        Some(k) => Some(k as int),
        None => None,
    }
}

/// The attribute is the injection annotation `#[inject(...)]`.
pub open spec fn is_inject_attr(a: AttrDecl) -> bool {
    a.ident is Some && a.ident->0@ == "inject"@
}

/// `attrs[k]` is an injection annotation, and none comes before it.
pub open spec fn is_first_inject(attrs: Seq<AttrDecl>, k: int) -> bool {
    &&& 0 <= k < attrs.len()
    &&& is_inject_attr(attrs[k])
    &&& forall|j: int| 0 <= j < k ==> !is_inject_attr(#[trigger] attrs[j])
}

/// The position of the first injection annotation among `attrs`, if any.
pub open spec fn inject_index(attrs: Seq<AttrDecl>) -> Option<int> {
    if exists|k: int| is_first_inject(attrs, k) {
        Some(choose|k: int| is_first_inject(attrs, k))
    } else {
        None
    }
}

/// The text between the outer parentheses of `t`, where `t` is parenthesized.
pub open spec fn parenthesized_inner(t: Seq<char>) -> Option<Seq<char>> {
    if t.len() >= 2 && t[0] == '(' && t[t.len() - 1] == ')' {
        Some(t.subrange(1, t.len() - 1))
    } else {
        None
    }
}

/// The segments of the path that an annotation's argument text holds.
pub open spec fn member_idents(t: Seq<char>) -> Option<Seq<Seq<char>>> {
    match parenthesized_inner(t) {
        Some(inner) => path_idents(inner),
        None => None,
    }
}

/// The member's path agrees with the enum's path on every leading segment
/// that both have.
pub open spec fn same_enum(member: Seq<Seq<char>>, enum_path: Seq<Seq<char>>) -> bool {
    forall|i: int| 0 <= i < member.len() && i < enum_path.len() ==> member[i] == enum_path[i]
}

/// The field is not annotated, or it is named and annotated with a member of
/// the enum `e`.
pub open spec fn field_ok(e: Seq<Seq<char>>, f: FieldDecl) -> bool {
    match inject_index(f.attrs@) {
        None => true,
        Some(k) => {
            &&& f.ident is Some
            &&& member_idents(f.attrs@[k].tokens@) is Some
            &&& member_idents(f.attrs@[k].tokens@)->0.len() >= 2
            &&& same_enum(member_idents(f.attrs@[k].tokens@)->0, e)
        },
    }
}

/// `fault` is the fault of field `f`, the checks being made in the order:
/// name, annotation syntax, number of segments, enum.
pub open spec fn fault_fits(e: Seq<Seq<char>>, f: FieldDecl, fault: FieldFault) -> bool {
    match inject_index(f.attrs@) {
        None => false,
        Some(k) => {
            let m = member_idents(f.attrs@[k].tokens@);
            if f.ident is None {
                fault is Unnamed
            } else if m is None {
                fault is InvalidAnnotation
            } else if m->0.len() < 2 {
                fault is Malformed
            } else if !same_enum(m->0, e) {
                fault is Inconsistent
            } else {
                false
            }
        },
    }
}

/// Field `i` is the first one that is not `field_ok`.
pub open spec fn first_fault(e: Seq<Seq<char>>, fields: Seq<FieldDecl>, i: int) -> bool {
    &&& 0 <= i < fields.len()
    &&& !field_ok(e, fields[i])
    &&& forall|j: int| 0 <= j < i ==> field_ok(e, #[trigger] fields[j])
}

/// The dispatch arms of the annotated fields, in field order: the member path
/// as written, and the field's name.
pub open spec fn arms_of(fields: Seq<FieldDecl>) -> Seq<(Seq<char>, Seq<char>)>
    decreases fields.len(),
{
    if fields.len() == 0 {
        seq![]
    } else {
        let f = fields.last();
        let rest = arms_of(fields.drop_last());
        match inject_index(f.attrs@) {
            Some(k) => rest.push((parenthesized_inner(f.attrs@[k].tokens@)->0, f.ident->0@)),
            None => rest,
        }
    }
}

/// One match arm: a value of the variant is stored into the field.
pub open spec fn arm_text(arm: (Seq<char>, Seq<char>)) -> Seq<char> {
    arm.0 + "(value) => self."@ + arm.1 + " = Injected::from(value), "@
}

/// The match arms for `arms`, in order.
pub open spec fn arms_text(arms: Seq<(Seq<char>, Seq<char>)>) -> Seq<char>
    decreases arms.len(),
{
    if arms.len() == 0 {
        seq![]
    } else {
        arms_text(arms.drop_last()) + arm_text(arms.last())
    }
}

/// The implementation of `Injectable<enum_text>` for the type `name`: a match
/// with one arm per binding, in order, and a last arm that does nothing.
pub open spec fn impl_text(
    enum_text: Seq<char>,
    name: Seq<char>,
    arms: Seq<(Seq<char>, Seq<char>)>,
) -> Seq<char> {
    "impl ::injectiny::Injectable<"@ + enum_text + "> for "@ + name
        + " { fn inject(&mut self, model: "@ + enum_text + ") { match model { "@
        + arms_text(arms) + "_ => {} } } }"@
}

/// The arm that a value of the variant `variant` takes in the match rendered
/// from `arms`: the first whose pattern is that variant. Variants are told apart
/// by their path as written: two spellings of one path (`A::B`, `A :: B`) count
/// as different here, though they name the same variant.
pub open spec fn taken_arm(arms: Seq<(Seq<char>, Seq<char>)>, variant: Seq<char>) -> Option<int>
    decreases arms.len(),
{
    if arms.len() == 0 {
        None
    } else {
        match taken_arm(arms.drop_last(), variant) {
            Some(i) => Some(i),
            None => if arms.last().0 == variant {
                Some(arms.len() - 1)
            } else {
                None
            },
        }
    }
}

/// The populated slots of a data-holder (field name to payload) after the
/// match rendered from `arms` handled a value of `variant` with `payload`: the
/// field of the arm taken now holds the payload; with no arm taken, nothing
/// changes.
pub open spec fn dispatched<P>(
    arms: Seq<(Seq<char>, Seq<char>)>,
    slots: Map<Seq<char>, P>,
    variant: Seq<char>,
    payload: P,
) -> Map<Seq<char>, P> {
    match taken_arm(arms, variant) {
        Some(i) => slots.insert(arms[i].1, payload),
        None => slots,
    }
}

proof fn lemma_taken_arm_first(arms: Seq<(Seq<char>, Seq<char>)>, i: int)
    requires
        0 <= i < arms.len(),
        forall|j: int| 0 <= j < i ==> #[trigger] arms[j].0 != arms[i].0,
    ensures
        taken_arm(arms, arms[i].0) == Some(i),
    decreases arms.len(),
{
    let v = arms[i].0;
    if i < arms.len() - 1 {
        let rest = arms.drop_last();
        assert forall|j: int| 0 <= j < i implies #[trigger] rest[j].0 != rest[i].0 by {
            assert(rest[j] == arms[j]);
        }
        lemma_taken_arm_first(rest, i);
    } else {
        lemma_taken_arm_none(arms.drop_last(), v);
    }
}

proof fn lemma_taken_arm_none(arms: Seq<(Seq<char>, Seq<char>)>, variant: Seq<char>)
    requires
        forall|j: int| 0 <= j < arms.len() ==> #[trigger] arms[j].0 != variant,
    ensures
        taken_arm(arms, variant) is None,
    decreases arms.len(),
{
    if arms.len() > 0 {
        let rest = arms.drop_last();
        assert forall|j: int| 0 <= j < rest.len() implies #[trigger] rest[j].0 != variant by {
            assert(rest[j] == arms[j]);
        }
        lemma_taken_arm_none(rest, variant);
    }
}

/// Two annotated fields whose members lie in enums with different first
/// segments cannot both agree with one enum path: whatever the type-level enum
/// (a path has at least one segment), one of the two fields is refused, so
/// `expand` fails.
pub proof fn lemma_mixed_enums_refused(e: Seq<Seq<char>>, fields: Seq<FieldDecl>, i: int, j: int)
    requires
        e.len() >= 1,
        0 <= i < fields.len(),
        0 <= j < fields.len(),
        inject_index(fields[i].attrs@) is Some,
        inject_index(fields[j].attrs@) is Some,
        member_idents(fields[i].attrs@[inject_index(fields[i].attrs@)->0].tokens@) is Some,
        member_idents(fields[j].attrs@[inject_index(fields[j].attrs@)->0].tokens@) is Some,
        member_idents(fields[i].attrs@[inject_index(fields[i].attrs@)->0].tokens@)->0.len() >= 1,
        member_idents(fields[j].attrs@[inject_index(fields[j].attrs@)->0].tokens@)->0.len() >= 1,
        member_idents(fields[i].attrs@[inject_index(fields[i].attrs@)->0].tokens@)->0[0]
            != member_idents(fields[j].attrs@[inject_index(fields[j].attrs@)->0].tokens@)->0[0],
    ensures
        !field_ok(e, fields[i]) || !field_ok(e, fields[j]),
{
}

/// The effect of the dispatch routine that `expand` renders for a data-holder
/// with the fields `fields` and a single binding (field `f` to variant `v`): a
/// value of `v` populates `f` with its payload, and a value of any other
/// variant leaves every slot as it was.
pub proof fn lemma_single_binding<P>(
    fields: Seq<FieldDecl>,
    slots: Map<Seq<char>, P>,
    payload: P,
    other: Seq<char>,
)
    requires
        arms_of(fields).len() == 1,
        other != arms_of(fields)[0].0,
    ensures
        ({
            let (v, f) = arms_of(fields)[0];
            &&& dispatched(arms_of(fields), slots, v, payload) == slots.insert(f, payload)
            &&& dispatched(arms_of(fields), slots, v, payload)[f] == payload
            &&& dispatched(arms_of(fields), slots, other, payload) == slots
        }),
{
    let arms = arms_of(fields);
    let arm = arms[0];
    assert(arms.drop_last() =~= Seq::<(Seq<char>, Seq<char>)>::empty());
    assert(taken_arm(arms.drop_last(), arm.0) is None);
    assert(taken_arm(arms, arm.0) == Some(0int));
    assert(taken_arm(arms.drop_last(), other) is None);
    assert(taken_arm(arms, other) is None);
}

/// For a data-holder whose bindings are over distinct variants, a value of the
/// variant of binding `i` changes the slot of that binding's field and no other.
pub proof fn lemma_no_cross_talk<P>(
    fields: Seq<FieldDecl>,
    i: int,
    slots: Map<Seq<char>, P>,
    payload: P,
)
    requires
        0 <= i < arms_of(fields).len(),
        forall|j: int, k: int|
            0 <= j < arms_of(fields).len() && 0 <= k < arms_of(fields).len() && j != k
                ==> arms_of(fields)[j].0 != arms_of(fields)[k].0,
    ensures
        ({
            let arms = arms_of(fields);
            let after = dispatched(arms, slots, arms[i].0, payload);
            &&& after == slots.insert(arms[i].1, payload)
            &&& forall|f: Seq<char>|
                f != arms[i].1 ==> (#[trigger] after.contains_key(f) == slots.contains_key(f)
                    && (slots.contains_key(f) ==> after[f] == slots[f]))
        }),
{
    let arms = arms_of(fields);
    assert forall|j: int| 0 <= j < i implies #[trigger] arms[j].0 != arms[i].0 by {}
    lemma_taken_arm_first(arms, i);
}

/// For any data-holder, injecting a second value of the same variant
/// overwrites the first: the slots end as if only the second value had been
/// injected.
pub proof fn lemma_last_write_wins<P>(
    fields: Seq<FieldDecl>,
    slots: Map<Seq<char>, P>,
    variant: Seq<char>,
    first: P,
    second: P,
)
    ensures
        ({
            let arms = arms_of(fields);
            dispatched(arms, dispatched(arms, slots, variant, first), variant, second)
                == dispatched(arms, slots, variant, second)
        }),
{
    let arms = arms_of(fields);
    if let Some(i) = taken_arm(arms, variant) {
        assert(slots.insert(arms[i].1, first).insert(arms[i].1, second) =~= slots.insert(arms[i].1, second));
    }
}

/// The position of the first injection annotation among `attrs`.
pub fn inject_attr_index(attrs: &Vec<AttrDecl>) -> (r: Option<usize>)
    ensures
        opt_int(r) == inject_index(attrs@),
{
    let mut k: usize = 0;
    while k < attrs.len()
        invariant
            0 <= k <= attrs@.len(),
            forall|j: int| 0 <= j < k ==> !is_inject_attr(#[trigger] attrs@[j]),
        decreases attrs.len() - k,
    {
        let hit = match &attrs[k].ident {
            Some(id) => *id == String::from_str("inject"),
            None => false,
        };
        if hit {
            proof {
                assert(is_first_inject(attrs@, k as int));
                let c = choose|c: int| is_first_inject(attrs@, c);
                if c < k {
                    assert(!is_inject_attr(attrs@[c]));
                } else if c > k {
                    assert(!is_inject_attr(attrs@[k as int]));
                }
            }
            return Some(k);
        }
        k += 1;
    }
    None
}

impl EnumMember {
    /// Parses the argument text of a field annotation: a parenthesized path of
    /// at least two segments.
    pub fn parse(tokens: &str) -> (r: Result<EnumMember, FieldFault>)
        ensures
            match r {
                Ok(m) => {
                    &&& member_idents(tokens@) == Some(idents_view(m.segments@))
                    &&& m.segments@.len() >= 2
                    &&& parenthesized_inner(tokens@) == Some(m.path@)
                },
                Err(FieldFault::InvalidAnnotation { .. }) => member_idents(tokens@) is None,
                Err(FieldFault::Malformed) => {
                    &&& member_idents(tokens@) is Some
                    &&& member_idents(tokens@)->0.len() < 2
                },
                Err(_) => false,
            },
    {
        let n = tokens.unicode_len();
        if n < 2 || tokens.get_char(0) != '(' || tokens.get_char(n - 1) != ')' {
            return Err(FieldFault::InvalidAnnotation { message: String::from_str("expected parentheses") });
        }
        let inner = tokens.substring_char(1, n - 1);
        EnumMember::from_path(String::from_str(inner), parse_path(inner))
    }

    /// The member for the path text `path`, given what parsing it as a path
    /// gave: its segments, or the parser's message.
    pub fn from_path(path: String, parsed: Result<Vec<String>, String>) -> (r: Result<EnumMember, FieldFault>)
        ensures
            match parsed {
                Ok(segments) => if segments@.len() >= 2 {
                    r matches Ok(m) && m.path == path && m.segments == segments
                } else {
                    r matches Err(FieldFault::Malformed)
                },
                Err(message) => r matches Err(FieldFault::InvalidAnnotation { message: m }) && m == message,
            },
    {
        match parsed {
            Err(message) => Err(FieldFault::InvalidAnnotation { message }),
            Ok(segments) => {
                if segments.len() < 2 {
                    Err(FieldFault::Malformed)
                } else {
                    Ok(EnumMember { path, segments })
                }
            },
        }
    }

    /// Whether this member's path agrees with `enum_path` on the leading
    /// segments that both have.
    pub fn has_enum_name(&self, enum_path: &Vec<String>) -> (r: bool)
        ensures
            r == same_enum(idents_view(self.segments@), idents_view(enum_path@)),
    {
        let mut i: usize = 0;
        while i < self.segments.len() && i < enum_path.len()
            invariant
                0 <= i <= self.segments@.len(),
                i <= enum_path@.len(),
                forall|j: int| 0 <= j < i ==> self.segments@[j]@ == #[trigger] enum_path@[j]@,
            decreases self.segments.len() - i,
        {
            if self.segments[i] != enum_path[i] {
                assert(idents_view(self.segments@)[i as int] != idents_view(enum_path@)[i as int]);
                return false;
            }
            i += 1;
        }
        true
    }
}

impl GenError {
    /// The diagnostic shown for this failure.
    pub fn message(&self) -> (r: String)
        ensures
            match self {
                GenError::InvalidEnumPath { message } => r@ == message@,
                GenError::UnsupportedTarget => r@ == "Injectable can only be applied to structs"@,
                GenError::Field { fault, .. } => match fault {
                    FieldFault::Unnamed => r@ == "Injected fields must be named"@,
                    FieldFault::InvalidAnnotation { message } => r@ == message@,
                    FieldFault::Malformed => r@ == "Expected enum member to be of the form `Enum::Member`"@,
                    FieldFault::Inconsistent => r@ == "All injected fields must be from the same enum"@,
                },
            },
    {
        match self {
            GenError::InvalidEnumPath { message } => message.clone(),
            GenError::UnsupportedTarget => String::from_str("Injectable can only be applied to structs"),
            GenError::Field { fault, .. } => match fault {
                FieldFault::Unnamed => String::from_str("Injected fields must be named"),
                FieldFault::InvalidAnnotation { message } => message.clone(),
                FieldFault::Malformed => String::from_str("Expected enum member to be of the form `Enum::Member`"),
                FieldFault::Inconsistent => String::from_str("All injected fields must be from the same enum"),
            },
        }
    }
}

/// Checks the annotations of the data-holder `holder`, whose type-level
/// annotation holds the enum path `enum_attr`, and renders its implementation
/// of `Injectable`. Fails on the first fault: the enum path, then the kind of
/// type, then the fields in declaration order.
pub fn expand(enum_attr: &str, holder: &HolderDecl) -> (r: Result<Expansion, GenError>)
    ensures
        r matches Ok(x) ==> {
            &&& path_idents(enum_attr@) is Some
            &&& holder.is_struct
            &&& forall|i: int|
                0 <= i < holder.fields@.len() ==> field_ok(
                    path_idents(enum_attr@)->0,
                    #[trigger] holder.fields@[i],
                )
            &&& x.removed@.len() == holder.fields@.len()
            &&& forall|i: int|
                0 <= i < holder.fields@.len() ==> opt_int(#[trigger] x.removed@[i])
                    == inject_index(holder.fields@[i].attrs@)
            &&& x.code@ == impl_text(enum_attr@, holder.name@, arms_of(holder.fields@))
        },
        path_idents(enum_attr@) is Some ==> path_idents(enum_attr@)->0.len() >= 1,
        r matches Err(GenError::InvalidEnumPath { .. }) ==> path_idents(enum_attr@) is None,
        r matches Err(GenError::UnsupportedTarget) ==> path_idents(enum_attr@) is Some
            && !holder.is_struct,
        r matches Err(GenError::Field { index, fault }) ==> {
            &&& path_idents(enum_attr@) is Some
            &&& holder.is_struct
            &&& first_fault(path_idents(enum_attr@)->0, holder.fields@, index as int)
            &&& fault_fits(path_idents(enum_attr@)->0, holder.fields@[index as int], fault)
        },
{
    let enum_path = match parse_path(enum_attr) {
        Ok(p) => p,
        Err(message) => return Err(GenError::InvalidEnumPath { message }),
    };
    if !holder.is_struct {
        return Err(GenError::UnsupportedTarget);
    }
    let ghost e = idents_view(enum_path@);
    let mut removed: Vec<Option<usize>> = Vec::new();
    let mut arms = String::new();
    let mut i: usize = 0;
    while i < holder.fields.len()
        invariant
            0 <= i <= holder.fields@.len(),
            holder.is_struct,
            path_idents(enum_attr@) == Some(e),
            e.len() >= 1,
            e == idents_view(enum_path@),
            removed@.len() == i,
            forall|j: int|
                0 <= j < i ==> opt_int(#[trigger] removed@[j]) == inject_index(
                    holder.fields@[j].attrs@,
                ),
            forall|j: int| 0 <= j < i ==> field_ok(e, #[trigger] holder.fields@[j]),
            arms@ == arms_text(arms_of(holder.fields@.subrange(0, i as int))),
        decreases holder.fields.len() - i,
    {
        let field = &holder.fields[i];
        let idx = inject_attr_index(&field.attrs);
        proof {
            let pre = holder.fields@.subrange(0, i as int);
            assert(holder.fields@.subrange(0, i + 1).drop_last() =~= pre);
            assert(holder.fields@.subrange(0, i + 1).last() == holder.fields@[i as int]);
        }
        match idx {
            None => {
                assert(arms_of(holder.fields@.subrange(0, i + 1)) == arms_of(
                    holder.fields@.subrange(0, i as int),
                ));
            },
            Some(k) => {
                let name = match &field.ident {
                    Some(n) => n,
                    None => return Err(GenError::Field { index: i, fault: FieldFault::Unnamed }),
                };
                let member = match EnumMember::parse(field.attrs[k].tokens.as_str()) {
                    Ok(m) => m,
                    Err(fault) => return Err(GenError::Field { index: i, fault }),
                };
                if !member.has_enum_name(&enum_path) {
                    return Err(GenError::Field { index: i, fault: FieldFault::Inconsistent });
                }
                let ghost before = arms@;
                arms.append(member.path.as_str());
                arms.append("(value) => self.");
                arms.append(name.as_str());
                arms.append(" = Injected::from(value), ");
                proof {
                    let arm = (member.path@, name@);
                    let prev = arms_of(holder.fields@.subrange(0, i as int));
                    assert(arms_of(holder.fields@.subrange(0, i + 1)) == prev.push(arm));
                    assert(prev.push(arm).drop_last() =~= prev);
                    assert(arms@ =~= before + arm_text(arm));
                }
            },
        }
        removed.push(idx);
        i += 1;
    }
    proof {
        assert(holder.fields@.subrange(0, holder.fields@.len() as int) =~= holder.fields@);
    }
    let mut code = String::new();
    code.append("impl ::injectiny::Injectable<");
    code.append(enum_attr);
    code.append("> for ");
    code.append(holder.name.as_str());
    code.append(" { fn inject(&mut self, model: ");
    code.append(enum_attr);
    code.append(") { match model { ");
    code.append(arms.as_str());
    code.append("_ => {} } } }");
    proof {
        assert(code@ =~= impl_text(enum_attr@, holder.name@, arms_of(holder.fields@)));
    }
    Ok(Expansion { removed, code })
}

} // verus!
