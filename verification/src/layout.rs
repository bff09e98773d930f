//! Presentation layout trees requested by automation scripts.
//!
//! A script may replace the screen layout with a structural description:
//! nested vertical/horizontal stacks whose leaves are scrollback panes
//! (with an optional numeric identifier) or the single input line.  The
//! description arrives as a dynamic script value; it is parsed into an
//! owned tree and validated — a usable layout holds exactly one input
//! surface and the default transcript pane — before anything is replaced.
//! Malformed descriptions are rejected with a descriptive error and no
//! partial effect.

use vstd::prelude::*;

verus! {

/// The identifier of the default transcript pane, which every layout must
/// provide.
pub const DEFAULT_PANE_ID: usize = 1;

/// A dynamic value handed over by the script runtime, reduced to the kinds
/// the layout grammar uses.
pub enum ScriptValue {
    Str(String),
    Int(i64),
    Array(Vec<ScriptValue>),
    /// Key/value pairs of a map, in iteration order.
    Object(Vec<(String, ScriptValue)>),
    /// A value of any other kind.
    Other,
}

/// A sizing constraint for one child of a stack.
#[derive(Clone, Copy, Debug, PartialEq, Eq)]
pub enum SizeConstraint {
    Max(u16),
    Min(u16),
    Percentage(u16),
}

/// A leaf surface of the layout.
pub enum LayoutPane {
    Scroll { id: Option<usize> },
    Input,
}

/// An owned layout tree: container variants hold their children in order
/// together with the children's sizing constraints.
pub enum LayoutElement {
    VerticalStack { children: Vec<LayoutElement>, constraints: Vec<SizeConstraint> },
    HorizontalStack { children: Vec<LayoutElement>, constraints: Vec<SizeConstraint> },
    Pane(LayoutPane),
}

/// The abstract form of a layout tree, with children as sequences.
pub enum LayoutModel {
    VStack { children: Seq<LayoutModel>, constraints: Seq<SizeConstraint> },
    HStack { children: Seq<LayoutModel>, constraints: Seq<SizeConstraint> },
    Scroll { id: Option<usize> },
    Input,
}

/// The abstract form of `el`.
pub open spec fn layout_model(el: LayoutElement) -> LayoutModel
    decreases el,
{
    match el {
        LayoutElement::VerticalStack { children, constraints } => LayoutModel::VStack {
            children: layout_model_seq(children@),
            constraints: constraints@,
        },
        LayoutElement::HorizontalStack { children, constraints } => LayoutModel::HStack {
            children: layout_model_seq(children@),
            constraints: constraints@,
        },
        LayoutElement::Pane(LayoutPane::Scroll { id }) => LayoutModel::Scroll { id },
        LayoutElement::Pane(LayoutPane::Input) => LayoutModel::Input,
    }
}

/// The abstract forms of a sequence of layout trees.
pub open spec fn layout_model_seq(s: Seq<LayoutElement>) -> Seq<LayoutModel>
    decreases s,
{
    if s.len() == 0 {
        Seq::empty()
    } else {
        seq![layout_model(s[0])] + layout_model_seq(s.drop_first())
    }
}

pub proof fn lemma_layout_model_seq_index(s: Seq<LayoutElement>)
    ensures
        layout_model_seq(s).len() == s.len(),
        forall|i: int| 0 <= i < s.len() ==> layout_model_seq(s)[i] == layout_model(s[i]),
    decreases s.len(),
{
    if s.len() > 0 {
        lemma_layout_model_seq_index(s.drop_first());
    }
}

/// Number of input surfaces in the tree.
pub open spec fn input_count(m: LayoutModel) -> nat
    decreases m,
{
    match m {
        LayoutModel::VStack { children, .. } => input_count_seq(children),
        LayoutModel::HStack { children, .. } => input_count_seq(children),
        LayoutModel::Scroll { .. } => 0,
        LayoutModel::Input => 1,
    }
}

pub open spec fn input_count_seq(s: Seq<LayoutModel>) -> nat
    decreases s,
{
    if s.len() == 0 {
        0
    } else {
        input_count(s[0]) + input_count_seq(s.drop_first())
    }
}

proof fn lemma_input_count_seq_push(s: Seq<LayoutModel>, x: LayoutModel)
    ensures
        input_count_seq(s.push(x)) == input_count_seq(s) + input_count(x),
    decreases s.len(),
{
    if s.len() == 0 {
        assert(s.push(x).drop_first() =~= s);
    } else {
        assert(s.push(x).drop_first() =~= s.drop_first().push(x));
        lemma_input_count_seq_push(s.drop_first(), x);
    }
}

/// Whether the tree holds a scrollback pane with identifier `id`.
pub open spec fn has_scroll_pane(m: LayoutModel, id: usize) -> bool
    decreases m,
{
    match m {
        LayoutModel::VStack { children, .. } => has_scroll_pane_seq(children, id),
        LayoutModel::HStack { children, .. } => has_scroll_pane_seq(children, id),
        LayoutModel::Scroll { id: pane_id } => pane_id == Some(id),
        LayoutModel::Input => false,
    }
}

pub open spec fn has_scroll_pane_seq(s: Seq<LayoutModel>, id: usize) -> bool
    decreases s,
{
    s.len() > 0 && (has_scroll_pane(s[0], id) || has_scroll_pane_seq(s.drop_first(), id))
}

proof fn lemma_has_scroll_pane_seq_push(s: Seq<LayoutModel>, x: LayoutModel, id: usize)
    ensures
        has_scroll_pane_seq(s.push(x), id) == (has_scroll_pane_seq(s, id) || has_scroll_pane(
            x,
            id,
        )),
    decreases s.len(),
{
    if s.len() == 0 {
        assert(s.push(x).drop_first() =~= s);
    } else {
        assert(s.push(x).drop_first() =~= s.drop_first().push(x));
        lemma_has_scroll_pane_seq_push(s.drop_first(), x, id);
    }
}

/// Why a layout description was rejected.
#[derive(Clone, Copy, Debug, PartialEq, Eq)]
pub enum LayoutError {
    /// A layout element is not a key/value map.
    NotAMap,
    /// The `type` property is absent or not text.
    MissingType,
    /// The `type` property names no known element.
    UnknownElementType,
    /// The `children` property is absent or not an array.
    MissingChildren,
    /// The `constraints` property is absent or not an array.
    MissingConstraints,
    /// A constraint is not an array of a text kind and a number.
    BadConstraint,
    /// A constraint kind names no known constraint.
    UnknownConstraintType,
    /// A constraint value does not fit the accepted size range.
    ConstraintOutOfRange,
    /// The `id` property is present but not a number.
    BadId,
    /// The `id` property does not fit the accepted identifier range.
    IdOutOfRange,
    /// The layout holds no input surface.
    MissingInput,
    /// The layout holds more than one input surface.
    MultipleInputs,
    /// The layout misses the default transcript pane.
    MissingDefaultPane,
}

/// What a usable layout must provide: exactly one input surface and the
/// default transcript pane.
pub open spec fn spec_validate(m: LayoutModel) -> Result<(), LayoutError> {
    if input_count(m) == 0 {
        Err(LayoutError::MissingInput)
    } else if input_count(m) > 1 {
        Err(LayoutError::MultipleInputs)
    } else if !has_scroll_pane(m, DEFAULT_PANE_ID) {
        Err(LayoutError::MissingDefaultPane)
    } else {
        Ok(())
    }
}

/// Number of input surfaces among `children`, counted up to two.
fn count_inputs_in(children: &Vec<LayoutElement>) -> (n: usize)
    ensures
        input_count_seq(layout_model_seq(children@)) < 2 ==> n == input_count_seq(
            layout_model_seq(children@),
        ),
        input_count_seq(layout_model_seq(children@)) >= 2 ==> n == 2,
    decreases children@,
{
    let ghost models = layout_model_seq(children@);
    proof {
        lemma_layout_model_seq_index(children@);
    }
    let mut total: usize = 0;
    let mut i: usize = 0;
    while i < children.len()
        invariant
            i <= children.len(),
            models == layout_model_seq(children@),
            models.len() == children@.len(),
            forall|j: int| 0 <= j < children@.len() ==> models[j] == layout_model(children@[j]),
            input_count_seq(models.take(i as int)) < 2 ==> total == input_count_seq(
                models.take(i as int),
            ),
            input_count_seq(models.take(i as int)) >= 2 ==> total == 2,
            total <= 2,
        decreases children.len() - i,
    {
        let c = children[i].inputs_up_to_two();
        proof {
            lemma_input_count_seq_push(models.take(i as int), models[i as int]);
            assert(models.take(i as int).push(models[i as int]) =~= models.take(i as int + 1));
        }
        total = if total + c > 2 {
            2
        } else {
            total + c
        };
        i += 1;
    }
    proof {
        assert(models.take(children@.len() as int) =~= models);
    }
    total
}

/// Whether any of `children` holds a scrollback pane with identifier `id`.
fn any_scroll_pane_in(children: &Vec<LayoutElement>, id: usize) -> (b: bool)
    ensures
        b == has_scroll_pane_seq(layout_model_seq(children@), id),
    decreases children@,
{
    let ghost models = layout_model_seq(children@);
    proof {
        lemma_layout_model_seq_index(children@);
    }
    let mut i: usize = 0;
    while i < children.len()
        invariant
            i <= children.len(),
            models == layout_model_seq(children@),
            models.len() == children@.len(),
            forall|j: int| 0 <= j < children@.len() ==> models[j] == layout_model(children@[j]),
            !has_scroll_pane_seq(models.take(i as int), id),
        decreases children.len() - i,
    {
        let found = children[i].contains_scroll_pane(id);
        proof {
            lemma_has_scroll_pane_seq_push(models.take(i as int), models[i as int], id);
            assert(models.take(i as int).push(models[i as int]) =~= models.take(i as int + 1));
        }
        if found {
            proof {
                lemma_has_seq_prefix(models, i as int + 1, id);
            }
            return true;
        }
        i += 1;
    }
    proof {
        assert(models.take(children@.len() as int) =~= models);
    }
    false
}

impl LayoutElement {
    /// Number of input surfaces in the tree, counted up to two (more than
    /// one is already a rejection).
    fn inputs_up_to_two(&self) -> (n: usize)
        ensures
            input_count(layout_model(*self)) < 2 ==> n == input_count(layout_model(*self)),
            input_count(layout_model(*self)) >= 2 ==> n == 2,
        decreases *self,
    {
        match self {
            LayoutElement::Pane(LayoutPane::Input) => 1,
            LayoutElement::Pane(LayoutPane::Scroll { .. }) => 0,
            LayoutElement::VerticalStack { children, .. } => {
                proof {
                    assert(*children == self->VerticalStack_children);
                    assert(decreases_to!(*self => *children));
                    assert(decreases_to!(*children => children@));
                }
                count_inputs_in(children)
            },
            LayoutElement::HorizontalStack { children, .. } => {
                proof {
                    assert(*children == self->HorizontalStack_children);
                    assert(decreases_to!(*self => *children));
                    assert(decreases_to!(*children => children@));
                }
                count_inputs_in(children)
            },
        }
    }

    /// Whether the tree holds a scrollback pane with identifier `id`.
    pub fn contains_scroll_pane(&self, id: usize) -> (b: bool)
        ensures
            b == has_scroll_pane(layout_model(*self), id),
        decreases *self,
    {
        match self {
            LayoutElement::Pane(LayoutPane::Input) => false,
            LayoutElement::Pane(LayoutPane::Scroll { id: pane_id }) => {
                match pane_id {
                    Some(i) => *i == id,
                    None => false,
                }
            },
            LayoutElement::VerticalStack { children, .. } => {
                proof {
                    assert(*children == self->VerticalStack_children);
                    assert(decreases_to!(*self => *children));
                    assert(decreases_to!(*children => children@));
                }
                any_scroll_pane_in(children, id)
            },
            LayoutElement::HorizontalStack { children, .. } => {
                proof {
                    assert(*children == self->HorizontalStack_children);
                    assert(decreases_to!(*self => *children));
                    assert(decreases_to!(*children => children@));
                }
                any_scroll_pane_in(children, id)
            },
        }
    }

    /// Checks that the layout is usable: exactly one input surface and the
    /// default transcript pane must be present.  Nothing is mutated.
    pub fn validate(&self) -> (r: Result<(), LayoutError>)
        ensures
            r == spec_validate(layout_model(*self)),
    {
        let inputs = self.inputs_up_to_two();
        if inputs == 0 {
            Err(LayoutError::MissingInput)
        } else if inputs > 1 {
            Err(LayoutError::MultipleInputs)
        } else if !self.contains_scroll_pane(DEFAULT_PANE_ID) {
            Err(LayoutError::MissingDefaultPane)
        } else {
            Ok(())
        }
    }
}

/// The value stored under `key`, scanning the pairs in order.
pub open spec fn lookup(entries: Seq<(String, ScriptValue)>, key: Seq<char>) -> Option<ScriptValue>
    decreases entries.len(),
{
    if entries.len() == 0 {
        None
    } else if entries.first().0@ == key {
        Some(entries.first().1)
    } else {
        lookup(entries.drop_first(), key)
    }
}

/// A found value is one of the stored pair values.
proof fn lemma_lookup_is_entry(entries: Seq<(String, ScriptValue)>, key: Seq<char>)
    requires
        lookup(entries, key) is Some,
    ensures
        exists|k: int| 0 <= k < entries.len() && entries[k].1 == lookup(entries, key)->0,
    decreases entries.len(),
{
    if entries.first().0@ == key {
        assert(entries[0].1 == lookup(entries, key)->0);
    } else {
        lemma_lookup_is_entry(entries.drop_first(), key);
        let k = choose|k: int|
            0 <= k < entries.drop_first().len() && entries.drop_first()[k].1 == lookup(
                entries.drop_first(),
                key,
            )->0;
        assert(entries[k + 1].1 == lookup(entries, key)->0);
    }
}

/// The size carried by a constraint: a number that must fit `u16`.
pub open spec fn spec_constraint_value(v: ScriptValue) -> Result<u16, LayoutError> {
    match v {
        ScriptValue::Int(value) => if 0 <= value && value <= u16::MAX {
            Ok(value as u16)
        } else {
            Err(LayoutError::ConstraintOutOfRange)
        },
        _ => Err(LayoutError::BadConstraint),
    }
}

/// One sizing constraint parsed from a script value.  Both spellings are
/// accepted: an array of a kind (`"max"`, `"min"` or `"percentage"`) and a
/// size, or a map from the kind to the size.
pub open spec fn spec_parse_constraint(v: ScriptValue) -> Result<SizeConstraint, LayoutError> {
    match v {
        ScriptValue::Array(items) => {
            if items@.len() == 0 {
                Err(LayoutError::BadConstraint)
            } else {
                match items@[0] {
                    ScriptValue::Str(kind) => {
                        if kind@ == "max"@ || kind@ == "min"@ || kind@ == "percentage"@ {
                            if items@.len() < 2 {
                                Err(LayoutError::BadConstraint)
                            } else {
                                match spec_constraint_value(items@[1]) {
                                    Ok(size) => if kind@ == "max"@ {
                                        Ok(SizeConstraint::Max(size))
                                    } else if kind@ == "min"@ {
                                        Ok(SizeConstraint::Min(size))
                                    } else {
                                        Ok(SizeConstraint::Percentage(size))
                                    },
                                    Err(e) => Err(e),
                                }
                            }
                        } else {
                            Err(LayoutError::UnknownConstraintType)
                        }
                    },
                    _ => Err(LayoutError::BadConstraint),
                }
            }
        },
        ScriptValue::Object(entries) => {
            if lookup(entries@, "max"@) is Some {
                match spec_constraint_value(lookup(entries@, "max"@)->0) {
                    Ok(size) => Ok(SizeConstraint::Max(size)),
                    Err(e) => Err(e),
                }
            } else if lookup(entries@, "min"@) is Some {
                match spec_constraint_value(lookup(entries@, "min"@)->0) {
                    Ok(size) => Ok(SizeConstraint::Min(size)),
                    Err(e) => Err(e),
                }
            } else if lookup(entries@, "percentage"@) is Some {
                match spec_constraint_value(lookup(entries@, "percentage"@)->0) {
                    Ok(size) => Ok(SizeConstraint::Percentage(size)),
                    Err(e) => Err(e),
                }
            } else {
                Err(LayoutError::UnknownConstraintType)
            }
        },
        _ => Err(LayoutError::BadConstraint),
    }
}

/// The constraints of a container, parsed in order; the first rejection
/// wins.
pub open spec fn spec_parse_constraints(s: Seq<ScriptValue>) -> Result<
    Seq<SizeConstraint>,
    LayoutError,
>
    decreases s.len(),
{
    if s.len() == 0 {
        Ok(Seq::empty())
    } else {
        match spec_parse_constraint(s.first()) {
            Ok(c) => match spec_parse_constraints(s.drop_first()) {
                Ok(rest) => Ok(seq![c] + rest),
                Err(e) => Err(e),
            },
            Err(e) => Err(e),
        }
    }
}

/// A layout tree parsed from a script value.  An element is a map whose
/// `type` names a container (`"vstack"`, `"hstack"` — with `children` and
/// `constraints` arrays) or a leaf (`"scroll"` with an optional numeric
/// `id`, or `"input"`).
pub open spec fn spec_parse_layout(v: ScriptValue) -> Result<LayoutModel, LayoutError>
    decreases v,
    via spec_parse_layout_decreases
{
    match v {
        ScriptValue::Object(entries) => match lookup(entries@, "type"@) {
            Some(ScriptValue::Str(t)) => {
                if t@ == "vstack"@ || t@ == "hstack"@ {
                    match lookup(entries@, "children"@) {
                        Some(ScriptValue::Array(children)) => match lookup(
                            entries@,
                            "constraints"@,
                        ) {
                            Some(ScriptValue::Array(cons)) => match spec_parse_children(
                                children@,
                            ) {
                                Ok(ch) => match spec_parse_constraints(cons@) {
                                    Ok(cs) => if t@ == "vstack"@ {
                                        Ok(LayoutModel::VStack { children: ch, constraints: cs })
                                    } else {
                                        Ok(LayoutModel::HStack { children: ch, constraints: cs })
                                    },
                                    Err(e) => Err(e),
                                },
                                Err(e) => Err(e),
                            },
                            _ => Err(LayoutError::MissingConstraints),
                        },
                        _ => Err(LayoutError::MissingChildren),
                    }
                } else if t@ == "scroll"@ {
                    match lookup(entries@, "id"@) {
                        None => Ok(LayoutModel::Scroll { id: None }),
                        Some(ScriptValue::Int(i)) => if 0 <= i && i <= u32::MAX {
                            Ok(LayoutModel::Scroll { id: Some(i as usize) })
                        } else {
                            Err(LayoutError::IdOutOfRange)
                        },
                        Some(_) => Err(LayoutError::BadId),
                    }
                } else if t@ == "input"@ {
                    Ok(LayoutModel::Input)
                } else {
                    Err(LayoutError::UnknownElementType)
                }
            },
            _ => Err(LayoutError::MissingType),
        },
        _ => Err(LayoutError::NotAMap),
    }
}

#[via_fn]
proof fn spec_parse_layout_decreases(v: ScriptValue) {
    match v {
        ScriptValue::Object(entries) => {
            assert(entries == v->Object_0);
            assert(decreases_to!(v => entries));
            assert(decreases_to!(entries => entries@));
            if lookup(entries@, "children"@) is Some {
                lemma_lookup_is_entry(entries@, "children"@);
                let k = choose|k: int|
                    0 <= k < entries@.len() && entries@[k].1 == lookup(entries@, "children"@)->0;
                assert(decreases_to!(entries@ => entries@[k]));
                assert(decreases_to!(entries@[k] => entries@[k].1));
                match entries@[k].1 {
                    ScriptValue::Array(children) => {
                        assert(children == entries@[k].1->Array_0);
                        assert(decreases_to!(entries@[k].1 => children));
                        assert(decreases_to!(children => children@));
                        assert(decreases_to!(v => children@));
                    },
                    _ => {},
                }
            }
        },
        _ => {},
    }
}

/// The children of a container, parsed in order; the first rejection wins.
pub open spec fn spec_parse_children(s: Seq<ScriptValue>) -> Result<Seq<LayoutModel>, LayoutError>
    decreases s,
{
    if s.len() == 0 {
        Ok(Seq::empty())
    } else {
        match spec_parse_layout(s.first()) {
            Ok(m) => match spec_parse_children(s.drop_first()) {
                Ok(rest) => Ok(seq![m] + rest),
                Err(e) => Err(e),
            },
            Err(e) => Err(e),
        }
    }
}

/// Whether two pieces of text hold the same characters.
fn str_content_eq(a: &str, b: &str) -> (r: bool)
    ensures
        r == (a@ == b@),
{
    let n = a.unicode_len();
    let m = b.unicode_len();
    if n != m {
        return false;
    }
    let mut i: usize = 0;
    while i < n
        invariant
            i <= n,
            n == a@.len(),
            n == b@.len(),
            forall|j: int| 0 <= j < i ==> a@[j] == b@[j],
        decreases n - i,
    {
        if a.get_char(i) != b.get_char(i) {
            return false;
        }
        i += 1;
    }
    proof {
        assert(a@ =~= b@);
    }
    true
}

/// A borrow of the value stored under `key`, if any.
fn lookup_value<'a>(entries: &'a Vec<(String, ScriptValue)>, key: &str) -> (r: Option<
    &'a ScriptValue,
>)
    ensures
        match r {
            Some(x) => lookup(entries@, key@) == Some(*x),
            None => lookup(entries@, key@) is None,
        },
{
    let mut i: usize = 0;
    proof {
        assert(entries@.skip(0) =~= entries@);
    }
    while i < entries.len()
        invariant
            i <= entries@.len(),
            lookup(entries@, key@) == lookup(entries@.skip(i as int), key@),
        decreases entries@.len() - i,
    {
        let hit = str_content_eq(entries[i].0.as_str(), key);
        proof {
            assert(entries@.skip(i as int).first() == entries@[i as int]);
            assert(entries@.skip(i as int).drop_first() =~= entries@.skip(i as int + 1));
        }
        if hit {
            return Some(&entries[i].1);
        }
        i += 1;
    }
    proof {
        assert(entries@.skip(entries@.len() as int).len() == 0);
    }
    None
}

/// The size carried by a constraint.
fn constraint_value(v: &ScriptValue) -> (r: Result<u16, LayoutError>)
    ensures
        r == spec_constraint_value(*v),
{
    match v {
        ScriptValue::Int(value) => {
            let value = *value;
            if value < 0 || value > u16::MAX as i64 {
                Err(LayoutError::ConstraintOutOfRange)
            } else {
                Ok(value as u16)
            }
        },
        _ => Err(LayoutError::BadConstraint),
    }
}

/// One sizing constraint parsed from a script value.
fn parse_constraint(v: &ScriptValue) -> (r: Result<SizeConstraint, LayoutError>)
    ensures
        r == spec_parse_constraint(*v),
{
    match v {
        ScriptValue::Array(items) => {
            if items.len() == 0 {
                return Err(LayoutError::BadConstraint);
            }
            match &items[0] {
                ScriptValue::Str(kind) => {
                    let is_max = str_content_eq(kind.as_str(), "max");
                    let is_min = str_content_eq(kind.as_str(), "min");
                    let is_pct = str_content_eq(kind.as_str(), "percentage");
                    if !(is_max || is_min || is_pct) {
                        return Err(LayoutError::UnknownConstraintType);
                    }
                    if items.len() < 2 {
                        return Err(LayoutError::BadConstraint);
                    }
                    match constraint_value(&items[1]) {
                        Ok(size) => {
                            if is_max {
                                Ok(SizeConstraint::Max(size))
                            } else if is_min {
                                Ok(SizeConstraint::Min(size))
                            } else {
                                Ok(SizeConstraint::Percentage(size))
                            }
                        },
                        Err(e) => Err(e),
                    }
                },
                _ => Err(LayoutError::BadConstraint),
            }
        },
        ScriptValue::Object(entries) => {
            if let Some(size) = lookup_value(entries, "max") {
                match constraint_value(size) {
                    Ok(size) => Ok(SizeConstraint::Max(size)),
                    Err(e) => Err(e),
                }
            } else if let Some(size) = lookup_value(entries, "min") {
                match constraint_value(size) {
                    Ok(size) => Ok(SizeConstraint::Min(size)),
                    Err(e) => Err(e),
                }
            } else if let Some(size) = lookup_value(entries, "percentage") {
                match constraint_value(size) {
                    Ok(size) => Ok(SizeConstraint::Percentage(size)),
                    Err(e) => Err(e),
                }
            } else {
                Err(LayoutError::UnknownConstraintType)
            }
        },
        _ => Err(LayoutError::BadConstraint),
    }
}

/// The constraints of a container, parsed in order.
fn parse_constraints(items: &Vec<ScriptValue>) -> (r: Result<Vec<SizeConstraint>, LayoutError>)
    ensures
        match r {
            Ok(cs) => spec_parse_constraints(items@) == Ok::<_, LayoutError>(cs@),
            Err(e) => spec_parse_constraints(items@) == Err::<Seq<SizeConstraint>, _>(e),
        },
{
    let mut cs: Vec<SizeConstraint> = Vec::new();
    let mut i: usize = 0;
    proof {
        assert(items@.skip(0) =~= items@);
        if spec_parse_constraints(items@) is Ok {
            assert(cs@ + spec_parse_constraints(items@)->Ok_0 =~= spec_parse_constraints(
                items@,
            )->Ok_0);
        }
    }
    while i < items.len()
        invariant
            i <= items@.len(),
            spec_parse_constraints(items@) == (match spec_parse_constraints(
                items@.skip(i as int),
            ) {
                Ok(rest) => Ok::<_, LayoutError>(cs@ + rest),
                Err(e) => Err::<Seq<SizeConstraint>, _>(e),
            }),
        decreases items@.len() - i,
    {
        proof {
            assert(items@.skip(i as int).first() == items@[i as int]);
            assert(items@.skip(i as int).drop_first() =~= items@.skip(i as int + 1));
        }
        match parse_constraint(&items[i]) {
            Ok(c) => {
                let ghost before = cs@;
                cs.push(c);
                proof {
                    if spec_parse_constraints(items@.skip(i as int + 1)) is Ok {
                        let rest = spec_parse_constraints(items@.skip(i as int + 1))->Ok_0;
                        assert(before + (seq![c] + rest) =~= cs@ + rest);
                    }
                }
            },
            Err(e) => {
                return Err(e);
            },
        }
        i += 1;
    }
    proof {
        assert(items@.skip(items@.len() as int).len() == 0);
        assert(cs@ + Seq::<SizeConstraint>::empty() =~= cs@);
    }
    Ok(cs)
}

/// The children of a container, parsed in order.
fn parse_elements(items: &Vec<ScriptValue>) -> (r: Result<Vec<LayoutElement>, LayoutError>)
    ensures
        match r {
            Ok(els) => spec_parse_children(items@) == Ok::<_, LayoutError>(
                layout_model_seq(els@),
            ),
            Err(e) => spec_parse_children(items@) == Err::<Seq<LayoutModel>, _>(e),
        },
    decreases items@,
{
    let mut els: Vec<LayoutElement> = Vec::new();
    let mut i: usize = 0;
    proof {
        assert(items@.skip(0) =~= items@);
        if spec_parse_children(items@) is Ok {
            assert(layout_model_seq(els@) + spec_parse_children(items@)->Ok_0
                =~= spec_parse_children(items@)->Ok_0);
        }
    }
    while i < items.len()
        invariant
            i <= items@.len(),
            spec_parse_children(items@) == (match spec_parse_children(items@.skip(i as int)) {
                Ok(rest) => Ok::<_, LayoutError>(layout_model_seq(els@) + rest),
                Err(e) => Err::<Seq<LayoutModel>, _>(e),
            }),
        decreases items@.len() - i,
    {
        proof {
            assert(items@.skip(i as int).first() == items@[i as int]);
            assert(items@.skip(i as int).drop_first() =~= items@.skip(i as int + 1));
            assert(decreases_to!(items@ => items@[i as int]));
        }
        match LayoutElement::from(&items[i]) {
            Ok(el) => {
                let ghost before = els@;
                let ghost ge = el;
                els.push(el);
                proof {
                    lemma_layout_model_seq_push(before, ge);
                    let m = layout_model(ge);
                    if spec_parse_children(items@.skip(i as int + 1)) is Ok {
                        let rest = spec_parse_children(items@.skip(i as int + 1))->Ok_0;
                        assert(layout_model_seq(before) + (seq![m] + rest) =~= layout_model_seq(
                            els@,
                        ) + rest);
                    }
                }
            },
            Err(e) => {
                return Err(e);
            },
        }
        i += 1;
    }
    proof {
        assert(items@.skip(items@.len() as int).len() == 0);
        assert(layout_model_seq(els@) + Seq::<LayoutModel>::empty() =~= layout_model_seq(els@));
    }
    Ok(els)
}

proof fn lemma_layout_model_seq_push(s: Seq<LayoutElement>, x: LayoutElement)
    ensures
        layout_model_seq(s.push(x)) == layout_model_seq(s).push(layout_model(x)),
{
    lemma_layout_model_seq_index(s.push(x));
    lemma_layout_model_seq_index(s);
    assert(layout_model_seq(s.push(x)) =~= layout_model_seq(s).push(layout_model(x)));
}

impl LayoutElement {
    /// Parses a layout tree from a dynamic script value; rejections carry
    /// the first offending property and leave nothing constructed.
    pub fn from(v: &ScriptValue) -> (r: Result<LayoutElement, LayoutError>)
        ensures
            match r {
                Ok(el) => spec_parse_layout(*v) == Ok::<_, LayoutError>(layout_model(el)),
                Err(e) => spec_parse_layout(*v) == Err::<LayoutModel, _>(e),
            },
        decreases *v,
    {
        match v {
            ScriptValue::Object(entries) => {
                let ts = match lookup_value(entries, "type") {
                    Some(tv) => match tv {
                        ScriptValue::Str(s) => s,
                        _ => {
                            return Err(LayoutError::MissingType);
                        },
                    },
                    None => {
                        return Err(LayoutError::MissingType);
                    },
                };
                let is_v = str_content_eq(ts.as_str(), "vstack");
                let is_h = str_content_eq(ts.as_str(), "hstack");
                if is_v || is_h {
                    let child_items = match lookup_value(entries, "children") {
                        Some(cv) => match cv {
                            ScriptValue::Array(items) => items,
                            _ => {
                                return Err(LayoutError::MissingChildren);
                            },
                        },
                        None => {
                            return Err(LayoutError::MissingChildren);
                        },
                    };
                    let cons_items = match lookup_value(entries, "constraints") {
                        Some(cv) => match cv {
                            ScriptValue::Array(items) => items,
                            _ => {
                                return Err(LayoutError::MissingConstraints);
                            },
                        },
                        None => {
                            return Err(LayoutError::MissingConstraints);
                        },
                    };
                    proof {
                        lemma_lookup_is_entry(entries@, "children"@);
                        let k = choose|k: int|
                            0 <= k < entries@.len() && entries@[k].1 == lookup(
                                entries@,
                                "children"@,
                            )->0;
                        assert(*entries == v->Object_0);
                        assert(decreases_to!(*v => *entries));
                        assert(decreases_to!(*entries => entries@));
                        assert(decreases_to!(entries@ => entries@[k]));
                        assert(decreases_to!(entries@[k] => entries@[k].1));
                        assert(entries@[k].1 == ScriptValue::Array(*child_items));
                        assert(*child_items == entries@[k].1->Array_0);
                        assert(decreases_to!(entries@[k].1 => *child_items));
                        assert(decreases_to!(*child_items => child_items@));
                        assert(decreases_to!(*v => child_items@));
                    }
                    let children = match parse_elements(child_items) {
                        Ok(c) => c,
                        Err(e) => {
                            return Err(e);
                        },
                    };
                    let constraints = match parse_constraints(cons_items) {
                        Ok(c) => c,
                        Err(e) => {
                            return Err(e);
                        },
                    };
                    if is_v {
                        Ok(LayoutElement::VerticalStack { children, constraints })
                    } else {
                        Ok(LayoutElement::HorizontalStack { children, constraints })
                    }
                } else {
                    let is_scroll = str_content_eq(ts.as_str(), "scroll");
                    if is_scroll {
                        match lookup_value(entries, "id") {
                            None => Ok(LayoutElement::Pane(LayoutPane::Scroll { id: None })),
                            Some(iv) => match iv {
                                ScriptValue::Int(i) => {
                                    let i = *i;
                                    if i < 0 || i > u32::MAX as i64 {
                                        Err(LayoutError::IdOutOfRange)
                                    } else {
                                        Ok(
                                            LayoutElement::Pane(
                                                LayoutPane::Scroll { id: Some(i as usize) },
                                            ),
                                        )
                                    }
                                },
                                _ => Err(LayoutError::BadId),
                            },
                        }
                    } else {
                        let is_input = str_content_eq(ts.as_str(), "input");
                        if is_input {
                            Ok(LayoutElement::Pane(LayoutPane::Input))
                        } else {
                            Err(LayoutError::UnknownElementType)
                        }
                    }
                }
            },
            _ => Err(LayoutError::NotAMap),
        }
    }
}

/// A prefix that already holds the pane settles the whole search.
proof fn lemma_has_seq_prefix(s: Seq<LayoutModel>, n: int, id: usize)
    requires
        0 <= n <= s.len(),
        has_scroll_pane_seq(s.take(n), id),
    ensures
        has_scroll_pane_seq(s, id),
    decreases n,
{
    if n > 0 {
        if has_scroll_pane(s.take(n)[0], id) {
            assert(s.len() > 0 && has_scroll_pane(s[0], id));
        } else {
            assert(s.take(n).drop_first() =~= s.drop_first().take(n - 1));
            lemma_has_seq_prefix(s.drop_first(), n - 1, id);
        }
    }
}

} // verus!
