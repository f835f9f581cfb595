//! The schema that the analyzer extracts from a foreign library: property
//! types, their properties, and the components that take them.

use vstd::prelude::*;
use vstd::string::*;

verus! {

/// One field of a property type.
#[derive(Debug, PartialEq, Eq)]
pub struct TypeProperty {
    /// The name of the intrinsic type, or `None` where the analyzer could
    /// not resolve the property's type to one.
    pub intrinsic_type: Option<String>,
    /// The name of the field.
    pub name: String,
    /// Whether the host may leave the property out.
    pub optional: bool,
}

/// A `TypeProperty` with its texts as sequences of characters.
pub struct TypePropertyView {
    pub intrinsic_type: Option<Seq<char>>,
    pub name: Seq<char>,
    pub optional: bool,
}

/// A named property schema. The order of `properties` is the order of the
/// fields in emitted code and of the values handed across the boundary.
#[derive(Debug, PartialEq, Eq)]
pub struct Type {
    pub name: String,
    pub properties: Vec<TypeProperty>,
}

/// A `Type` with its texts as sequences of characters.
pub struct TypeView {
    pub name: Seq<char>,
    pub properties: Seq<TypePropertyView>,
}

/// A component of the foreign library.
#[derive(Debug, PartialEq, Eq)]
pub struct Component {
    /// The name under which the foreign library exports the component.
    pub name: String,
    /// The name of the type that describes the component's properties.
    pub props_name: String,
}

/// A `Component` with its texts as sequences of characters.
pub struct ComponentView {
    pub name: Seq<char>,
    pub props_name: Seq<char>,
}

/// Everything the analyzer found: the property types and the components.
#[derive(Debug, PartialEq, Eq)]
pub struct AnalyzerOutput {
    pub types: Vec<Type>,
    pub components: Vec<Component>,
}

/// An `AnalyzerOutput` with its texts as sequences of characters.
pub struct AnalyzerOutputView {
    pub types: Seq<TypeView>,
    pub components: Seq<ComponentView>,
}

/// The views of `properties`, in order.
pub open spec fn properties_view(properties: Seq<TypeProperty>) -> Seq<TypePropertyView> {
    properties.map_values(|property: TypeProperty| property@)
}

/// The views of `types`, in order.
pub open spec fn types_view(types: Seq<Type>) -> Seq<TypeView> {
    types.map_values(|ty: Type| ty@)
}

/// The views of `components`, in order.
pub open spec fn components_view(components: Seq<Component>) -> Seq<ComponentView> {
    components.map_values(|component: Component| component@)
}

impl View for TypeProperty {
    type V = TypePropertyView;

    open spec fn view(&self) -> TypePropertyView {
        TypePropertyView {
            intrinsic_type: match self.intrinsic_type {
                Some(name) => Some(name@),
                None => None,
            },
            name: self.name@,
            optional: self.optional,
        }
    }
}

impl View for Type {
    type V = TypeView;

    open spec fn view(&self) -> TypeView {
        TypeView { name: self.name@, properties: properties_view(self.properties@) }
    }
}

impl View for Component {
    type V = ComponentView;

    open spec fn view(&self) -> ComponentView {
        ComponentView { name: self.name@, props_name: self.props_name@ }
    }
}

impl View for AnalyzerOutput {
    type V = AnalyzerOutputView;

    open spec fn view(&self) -> AnalyzerOutputView {
        AnalyzerOutputView {
            types: types_view(self.types@),
            components: components_view(self.components@),
        }
    }
}

/// One step of copying a sequence entry by entry: where `copy` agrees with
/// the first `i` entries of `source` under `f`, and `next` agrees with entry
/// `i`, `copy` with `next` appended agrees with the first `i + 1` entries.
proof fn lemma_map_values_step<A, B>(
    f: spec_fn(A) -> B,
    source: Seq<A>,
    copy: Seq<A>,
    next: A,
    i: int,
)
    requires
        0 <= i < source.len(),
        copy.map_values(f) == source.map_values(f).take(i),
        f(next) == f(source[i]),
    ensures
        copy.push(next).map_values(f) == source.map_values(f).take(i + 1),
{
    assert(copy.map_values(f).len() == i);
    assert(copy.push(next).map_values(f) =~= source.map_values(f).take(i + 1));
}

/// Appending an entry appends its image under `f`.
proof fn lemma_map_values_push<A, B>(f: spec_fn(A) -> B, entries: Seq<A>, next: A)
    ensures
        entries.push(next).map_values(f) == entries.map_values(f).push(f(next)),
{
    assert(entries.push(next).map_values(f) =~= entries.map_values(f).push(f(next)));
}

impl Clone for TypeProperty {
    fn clone(&self) -> (copy: Self)
        ensures
            copy@ == self@,
    {
        TypeProperty {
            intrinsic_type: match &self.intrinsic_type {
                Some(name) => Some(name.clone()),
                None => None,
            },
            name: self.name.clone(),
            optional: self.optional,
        }
    }
}

impl Clone for Type {
    fn clone(&self) -> (copy: Self)
        ensures
            copy@ == self@,
    {
        let mut properties: Vec<TypeProperty> = Vec::new();
        let mut i: usize = 0;
        while i < self.properties.len()
            invariant
                i <= self.properties.len(),
                properties_view(properties@) == properties_view(self.properties@).take(i as int),
            decreases self.properties.len() - i,
        {
            let ghost before = properties@;
            let property = self.properties[i].clone();
            properties.push(property);
            proof {
                lemma_map_values_step(
                    |property: TypeProperty| property@,
                    self.properties@,
                    before,
                    property,
                    i as int,
                );
            }
            i = i + 1;
        }
        assert(properties_view(properties@) =~= properties_view(self.properties@));
        Type { name: self.name.clone(), properties }
    }
}

impl Clone for Component {
    fn clone(&self) -> (copy: Self)
        ensures
            copy@ == self@,
    {
        Component { name: self.name.clone(), props_name: self.props_name.clone() }
    }
}

impl Clone for AnalyzerOutput {
    fn clone(&self) -> (copy: Self)
        ensures
            copy@ == self@,
    {
        let mut types: Vec<Type> = Vec::new();
        let mut i: usize = 0;
        while i < self.types.len()
            invariant
                i <= self.types.len(),
                types_view(types@) == types_view(self.types@).take(i as int),
            decreases self.types.len() - i,
        {
            let ghost before = types@;
            let ty = self.types[i].clone();
            types.push(ty);
            proof {
                lemma_map_values_step(|ty: Type| ty@, self.types@, before, ty, i as int);
            }
            i = i + 1;
        }
        assert(types_view(types@) =~= types_view(self.types@));
        let mut components: Vec<Component> = Vec::new();
        let mut j: usize = 0;
        while j < self.components.len()
            invariant
                j <= self.components.len(),
                components_view(components@) == components_view(self.components@).take(j as int),
            decreases self.components.len() - j,
        {
            let ghost before = components@;
            let component = self.components[j].clone();
            components.push(component);
            proof {
                lemma_map_values_step(
                    |component: Component| component@,
                    self.components@,
                    before,
                    component,
                    j as int,
                );
            }
            j = j + 1;
        }
        assert(components_view(components@) =~= components_view(self.components@));
        AnalyzerOutput { types, components }
    }
}

/// Whether some entry of `types` has the name `name`.
pub open spec fn has_name(types: Seq<TypeView>, name: Seq<char>) -> bool {
    exists|j: int| 0 <= j < types.len() && #[trigger] types[j].name == name
}

/// The first entry of `types` that has the name `name`, by its index.
pub open spec fn first_named(types: Seq<TypeView>, name: Seq<char>) -> Option<int>
    decreases types.len(),
{
    if types.len() == 0 {
        None
    } else {
        match first_named(types.drop_last(), name) {
            Some(i) => Some(i),
            None => if types.last().name == name {
                Some(types.len() - 1)
            } else {
                None
            },
        }
    }
}

/// `types` without the entries whose name an earlier entry has already: of
/// the entries that share a name the first stays, in its place.
pub open spec fn distinct_by_name(types: Seq<TypeView>) -> Seq<TypeView>
    decreases types.len(),
{
    if types.len() == 0 {
        Seq::empty()
    } else {
        let kept = distinct_by_name(types.drop_last());
        if has_name(types.drop_last(), types.last().name) {
            kept
        } else {
            kept.push(types.last())
        }
    }
}

/// `first_named` finds the least index that holds the name, and nothing
/// where no entry holds it.
pub proof fn lemma_first_named(types: Seq<TypeView>, name: Seq<char>)
    ensures
        match first_named(types, name) {
            Some(i) => {
                &&& 0 <= i < types.len()
                &&& types[i].name == name
                &&& forall|j: int| 0 <= j < i ==> (#[trigger] types[j]).name != name
            },
            None => !has_name(types, name),
        },
    decreases types.len(),
{
    if types.len() > 0 {
        lemma_first_named(types.drop_last(), name);
        let front = types.drop_last();
        match first_named(front, name) {
            Some(i) => {
                assert(types[i] == front[i]);
                assert forall|j: int| 0 <= j < i implies (#[trigger] types[j]).name != name by {
                    assert(types[j] == front[j]);
                }
            },
            None => {
                if types.last().name == name {
                    assert forall|j: int| 0 <= j < types.len() - 1 implies (
                    #[trigger] types[j]).name != name by {
                        assert(front[j] == types[j]);
                    }
                } else {
                    assert forall|j: int| 0 <= j < types.len() implies (#[trigger] types[j]).name
                        != name by {
                        if j < types.len() - 1 {
                            assert(front[j] == types[j]);
                        }
                    }
                }
            },
        }
    }
}

/// Deduplication loses no name and invents none.
pub proof fn lemma_distinct_by_name_keeps_names(types: Seq<TypeView>, name: Seq<char>)
    ensures
        has_name(distinct_by_name(types), name) <==> has_name(types, name),
    decreases types.len(),
{
    if types.len() > 0 {
        let front = types.drop_last();
        let kept = distinct_by_name(front);
        lemma_distinct_by_name_keeps_names(front, name);
        if has_name(types, name) {
            let j = choose|j: int| 0 <= j < types.len() && #[trigger] types[j].name == name;
            if j < types.len() - 1 {
                assert(front[j].name == name);
            } else {
                lemma_distinct_by_name_keeps_names(front, types.last().name);
                if !has_name(front, types.last().name) {
                    assert(kept.push(types.last())[kept.len() as int].name == name);
                }
            }
            let k = choose|k: int| 0 <= k < kept.len() && #[trigger] kept[k].name == name;
            if has_name(kept, name) {
                assert(distinct_by_name(types)[k].name == name);
            }
        }
        if has_name(distinct_by_name(types), name) {
            let whole = distinct_by_name(types);
            let k = choose|k: int| 0 <= k < whole.len() && #[trigger] whole[k].name == name;
            if k < kept.len() {
                assert(kept[k].name == name);
                let j = choose|j: int| 0 <= j < front.len() && #[trigger] front[j].name == name;
                assert(types[j].name == name);
            } else {
                assert(types[types.len() - 1].name == name);
            }
        }
    }
}

/// Whether no two entries of `types` share a name.
pub open spec fn names_distinct(types: Seq<TypeView>) -> bool {
    forall|i: int, j: int|
        0 <= i < j < types.len() ==> (#[trigger] types[i]).name != (#[trigger] types[j]).name
}

/// What deduplication keeps and what it drops. Of the types that share a
/// name exactly the first stays: every entry that is kept is the first
/// entry of its name in `types`, unchanged; no name is kept twice; every
/// name of `types` is kept; and the entries that are kept stand in the order
/// in which they stood in `types`.
pub proof fn lemma_distinct_by_name_keeps_first(types: Seq<TypeView>)
    ensures
        names_distinct(distinct_by_name(types)),
        forall|k: int|
            0 <= k < distinct_by_name(types).len() ==> {
                let kept = #[trigger] distinct_by_name(types)[k];
                &&& first_named(types, kept.name) is Some
                &&& types[first_named(types, kept.name)->0] == kept
            },
        forall|i: int|
            0 <= i < types.len() ==> has_name(distinct_by_name(types), (#[trigger] types[i]).name),
        forall|k: int, l: int|
            0 <= k < l < distinct_by_name(types).len() ==> first_named(
                types,
                (#[trigger] distinct_by_name(types)[k]).name,
            )->0 < first_named(types, (#[trigger] distinct_by_name(types)[l]).name)->0,
    decreases types.len(),
{
    let kept = distinct_by_name(types);
    if types.len() > 0 {
        let front = types.drop_last();
        let before = distinct_by_name(front);
        let last = types.last();
        lemma_distinct_by_name_keeps_first(front);
        lemma_distinct_by_name_keeps_names(front, last.name);
        lemma_first_named(front, last.name);
        assert forall|k: int| 0 <= k < before.len() implies {
            &&& first_named(types, (#[trigger] before[k]).name) == first_named(
                front,
                before[k].name,
            )
            &&& first_named(front, before[k].name) is Some
            &&& 0 <= first_named(front, before[k].name)->0 < front.len()
            &&& types[first_named(front, before[k].name)->0] == before[k]
        } by {
            lemma_first_named(front, before[k].name);
            assert(front[first_named(front, before[k].name)->0] == before[k]);
        }
        if has_name(front, last.name) {
            assert(kept == before);
        } else {
            assert(kept == before.push(last));
            assert(first_named(types, last.name) == Some(types.len() - 1));
            assert forall|k: int| 0 <= k < before.len() implies (#[trigger] before[k]).name
                != last.name by {
                if before[k].name == last.name {
                    assert(has_name(before, last.name));
                }
            }
            assert forall|k: int| 0 <= k < kept.len() implies {
                let entry = #[trigger] kept[k];
                &&& first_named(types, entry.name) is Some
                &&& types[first_named(types, entry.name)->0] == entry
            } by {
                if k < before.len() {
                    assert(kept[k] == before[k]);
                }
            }
            assert forall|k: int, l: int| 0 <= k < l < kept.len() implies first_named(
                types,
                (#[trigger] kept[k]).name,
            )->0 < first_named(types, (#[trigger] kept[l]).name)->0 by {
                assert(kept[k] == before[k]);
                if l < before.len() {
                    assert(kept[l] == before[l]);
                }
            }
            assert forall|k: int, l: int| 0 <= k < l < kept.len() implies (#[trigger] kept[k]).name
                != (#[trigger] kept[l]).name by {
                assert(kept[k] == before[k]);
                if l < before.len() {
                    assert(kept[l] == before[l]);
                }
            }
        }
        assert forall|i: int| 0 <= i < types.len() implies has_name(
            kept,
            (#[trigger] types[i]).name,
        ) by {
            lemma_distinct_by_name_keeps_names(types, types[i].name);
        }
    }
}

/// Where no two types share a name, deduplication changes nothing.
pub proof fn lemma_distinct_by_name_of_distinct(types: Seq<TypeView>)
    requires
        names_distinct(types),
    ensures
        distinct_by_name(types) == types,
    decreases types.len(),
{
    if types.len() > 0 {
        let front = types.drop_last();
        assert forall|i: int, j: int| 0 <= i < j < front.len() implies (#[trigger] front[i]).name
            != (#[trigger] front[j]).name by {
            assert(front[i] == types[i]);
            assert(front[j] == types[j]);
        }
        lemma_distinct_by_name_of_distinct(front);
        if has_name(front, types.last().name) {
            let j = choose|j: int|
                0 <= j < front.len() && #[trigger] front[j].name == types.last().name;
            assert(front[j] == types[j]);
            assert(types[j].name != types[types.len() - 1].name);
        }
        assert(front.push(types.last()) =~= types);
    } else {
        assert(distinct_by_name(types) =~= types);
    }
}

/// Deduplicating a second time changes nothing.
pub proof fn lemma_distinct_by_name_idempotent(types: Seq<TypeView>)
    ensures
        distinct_by_name(distinct_by_name(types)) == distinct_by_name(types),
{
    lemma_distinct_by_name_keeps_first(types);
    lemma_distinct_by_name_of_distinct(distinct_by_name(types));
}

/// Finds the first of `types` that has the name `name`, by its index.
pub fn position_of_name(types: &Vec<Type>, name: &str) -> (found: Option<usize>)
    ensures
        match found {
            Some(i) => first_named(types_view(types@), name@) == Some(i as int),
            None => first_named(types_view(types@), name@) is None,
        },
{
    let wanted = name.to_owned();
    let mut i: usize = 0;
    while i < types.len()
        invariant
            i <= types.len(),
            wanted@ == name@,
            forall|j: int| 0 <= j < i ==> (#[trigger] types_view(types@)[j]).name != name@,
        decreases types.len() - i,
    {
        if types[i].name == wanted {
            proof {
                lemma_first_named(types_view(types@), name@);
                assert(types_view(types@)[i as int].name == name@);
            }
            return Some(i);
        }
        i = i + 1;
    }
    proof {
        lemma_first_named(types_view(types@), name@);
    }
    None
}

impl AnalyzerOutput {
    /// The property types, each name once: of the types that share a name
    /// the first one found stays, and the later ones are dropped.
    pub fn types(&self) -> (kept: Vec<Type>)
        ensures
            types_view(kept@) == distinct_by_name(self@.types),
            names_distinct(types_view(kept@)),
    {
        let mut kept: Vec<Type> = Vec::new();
        let mut i: usize = 0;
        while i < self.types.len()
            invariant
                i <= self.types.len(),
                types_view(kept@) == distinct_by_name(types_view(self.types@).take(i as int)),
            decreases self.types.len() - i,
        {
            let candidate = &self.types[i];
            let seen = position_of_name(&kept, candidate.name.as_str());
            proof {
                let all = types_view(self.types@);
                assert(all.take(i + 1).drop_last() =~= all.take(i as int));
                lemma_distinct_by_name_keeps_names(all.take(i as int), candidate@.name);
                lemma_first_named(types_view(kept@), candidate@.name);
            }
            if seen.is_none() {
                let ghost before = kept@;
                let copy = candidate.clone();
                kept.push(copy);
                proof {
                    lemma_map_values_push(|ty: Type| ty@, before, copy);
                }
            }
            i = i + 1;
        }
        proof {
            assert(types_view(self.types@).take(self.types.len() as int) =~= types_view(
                self.types@,
            ));
            lemma_distinct_by_name_keeps_first(self@.types);
        }
        kept
    }

    /// The type that a component's `props_name` stands for: the first of
    /// `self.types` with that name.
    pub fn props_type(&self, props_name: &str) -> (found: Option<&Type>)
        ensures
            match found {
                Some(ty) => {
                    &&& first_named(self@.types, props_name@) is Some
                    &&& ty@ == self@.types[first_named(self@.types, props_name@)->0]
                },
                None => first_named(self@.types, props_name@) is None,
            },
    {
        match position_of_name(&self.types, props_name) {
            Some(i) => {
                proof {
                    lemma_first_named(self@.types, props_name@);
                }
                Some(&self.types[i])
            },
            None => None,
        }
    }
}

} // verus!
