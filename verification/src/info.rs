//! What a compiled module tells about its script functions.

use vstd::prelude::*;
use crate::text::str_eq;
use crate::value::{duplicate_layouts, layouts_view, Layout, TypeLayout};

verus! {

/// Information about a bytecode unit.
#[derive(Debug)]
pub struct BytecodeInfo {}

/// The visibility of a function in a module.
#[derive(Clone, Copy, Debug, PartialEq, Eq)]
pub enum Visibility {
    Private,
    Public,
    Script,
    Friend,
}

/// A set of abilities as the bytecode stores it: `Copy` is the bit `0x1`,
/// `Drop` `0x2`, `Store` `0x4` and `Key` `0x8`.
#[derive(Clone, Copy, Debug, PartialEq, Eq)]
pub struct AbilitySet(pub u8);

/// An ability of a type parameter.
#[derive(Clone, Copy, Debug, Ord, PartialOrd, Eq, PartialEq)]
pub enum TypeAbility {
    Copy,
    Drop,
    Store,
    Key,
}

/// The abilities of a type parameter, in the order `Copy`, `Drop`, `Store`,
/// `Key`.
#[derive(Debug, Ord, PartialOrd, Eq, PartialEq)]
pub struct TypeAbilities {
    pub abilities: Vec<TypeAbility>,
}

/// The abilities that the bits of an ability set stand for, in the order of
/// their bits.
pub open spec fn abilities_of(bits: u8) -> Seq<TypeAbility> {
    (if bits & 1 != 0 { seq![TypeAbility::Copy] } else { Seq::empty() }) + (if bits & 2 != 0 {
        seq![TypeAbility::Drop]
    } else {
        Seq::empty()
    }) + (if bits & 4 != 0 { seq![TypeAbility::Store] } else { Seq::empty() }) + (if bits & 8
        != 0 {
        seq![TypeAbility::Key]
    } else {
        Seq::empty()
    })
}

/// The place of an ability in the order `Copy`, `Drop`, `Store`, `Key`.
pub open spec fn ability_rank(a: TypeAbility) -> int {
    match a {
        TypeAbility::Copy => 0,
        TypeAbility::Drop => 1,
        TypeAbility::Store => 2,
        TypeAbility::Key => 3,
    }
}

/// The abilities of a set come in the order `Copy`, `Drop`, `Store`, `Key`,
/// each at most once, and an ability is there exactly when its bit is set.
pub proof fn lemma_abilities_of(bits: u8)
    ensures
        forall|i: int, j: int|
            0 <= i < j < abilities_of(bits).len() ==> ability_rank(abilities_of(bits)[i])
                < ability_rank(abilities_of(bits)[j]),
        abilities_of(bits).contains(TypeAbility::Copy) <==> bits & 1 != 0,
        abilities_of(bits).contains(TypeAbility::Drop) <==> bits & 2 != 0,
        abilities_of(bits).contains(TypeAbility::Store) <==> bits & 4 != 0,
        abilities_of(bits).contains(TypeAbility::Key) <==> bits & 8 != 0,
{
    let c: Seq<TypeAbility> = if bits & 1 != 0 { seq![TypeAbility::Copy] } else { Seq::empty() };
    let d: Seq<TypeAbility> = if bits & 2 != 0 { seq![TypeAbility::Drop] } else { Seq::empty() };
    let t: Seq<TypeAbility> = if bits & 4 != 0 { seq![TypeAbility::Store] } else { Seq::empty() };
    let k: Seq<TypeAbility> = if bits & 8 != 0 { seq![TypeAbility::Key] } else { Seq::empty() };
    let all = abilities_of(bits);
    assert(all == c + d + t + k);
    assert forall|i: int| 0 <= i < all.len() implies {
        let r = ability_rank(#[trigger] all[i]);
        &&& (i < c.len() ==> r == 0)
        &&& (c.len() <= i < c.len() + d.len() ==> r == 1)
        &&& (c.len() + d.len() <= i < c.len() + d.len() + t.len() ==> r == 2)
        &&& (c.len() + d.len() + t.len() <= i ==> r == 3)
    } by {
        if i < c.len() {
            assert(all[i] == c[i]);
        } else if i < c.len() + d.len() {
            assert(all[i] == d[i - c.len()]);
        } else if i < c.len() + d.len() + t.len() {
            assert(all[i] == t[i - c.len() - d.len()]);
        } else {
            assert(all[i] == k[i - c.len() - d.len() - t.len()]);
        }
    }
    if bits & 1 != 0 {
        assert(all[0] == TypeAbility::Copy);
    }
    if bits & 2 != 0 {
        assert(all[c.len() as int] == TypeAbility::Drop);
    }
    if bits & 4 != 0 {
        assert(all[(c.len() + d.len()) as int] == TypeAbility::Store);
    }
    if bits & 8 != 0 {
        assert(all[(c.len() + d.len() + t.len()) as int] == TypeAbility::Key);
    }
}

impl TypeAbilities {
    /// The abilities of an ability set.
    pub fn from(val: &AbilitySet) -> (r: TypeAbilities)
        ensures
            r.abilities@ == abilities_of(val.0),
    {
        let bits = val.0;
        let mut abilities: Vec<TypeAbility> = Vec::new();
        if bits & 1 != 0 {
            abilities.push(TypeAbility::Copy);
        }
        if bits & 2 != 0 {
            abilities.push(TypeAbility::Drop);
        }
        if bits & 4 != 0 {
            abilities.push(TypeAbility::Store);
        }
        if bits & 8 != 0 {
            abilities.push(TypeAbility::Key);
        }
        assert(abilities@ =~= abilities_of(bits));
        TypeAbilities { abilities }
    }
}

/// A function definition of a compiled module, by the parts that a lookup
/// reads: its visibility, its name, the layouts of its parameters, the
/// abilities of its type parameters and the layouts of its results.
#[derive(Debug)]
pub struct FunctionDefInfo {
    pub visibility: Visibility,
    pub name: String,
    pub parameters: Vec<TypeLayout>,
    pub type_parameters: Vec<AbilitySet>,
    pub returns: Vec<TypeLayout>,
}

/// A compiled module, by its function definitions in the order of its
/// definition table.
#[derive(Debug)]
pub struct CompiledModule {
    pub function_defs: Vec<FunctionDefInfo>,
}

/// A script function found in a module.
#[derive(Debug)]
pub struct Script {
    pub name: String,
    pub parameters: Vec<TypeLayout>,
    pub type_parameters: Vec<TypeAbilities>,
    pub returns: Vec<TypeLayout>,
}

/// Model of a `Script`.
pub struct ScriptView {
    pub name: Seq<char>,
    pub parameters: Seq<Layout>,
    pub type_parameters: Seq<Seq<TypeAbility>>,
    pub returns: Seq<Layout>,
}

impl View for Script {
    type V = ScriptView;

    open spec fn view(&self) -> ScriptView {
        ScriptView {
            name: self.name@,
            parameters: layouts_view(self.parameters@),
            type_parameters: Seq::new(
                self.type_parameters@.len(),
                |k: int| self.type_parameters@[k].abilities@,
            ),
            returns: layouts_view(self.returns@),
        }
    }
}

impl Script {
    /// The number of type parameters.
    pub fn type_params_count(&self) -> (n: usize)
        ensures
            n == self.type_parameters@.len(),
    {
        self.type_parameters.len()
    }
}

/// Whether a definition is a script function of the given name.
pub open spec fn is_script_named(def: FunctionDefInfo, name: Seq<char>) -> bool {
    def.visibility == Visibility::Script && def.name@ == name
}

/// The index of the first script function named `name` among `defs[k..]`.
pub open spec fn first_script_from(defs: Seq<FunctionDefInfo>, name: Seq<char>, k: int) -> Option<
    int,
>
    decreases defs.len() - k,
{
    if k < 0 || k >= defs.len() {
        None
    } else if is_script_named(defs[k], name) {
        Some(k)
    } else {
        first_script_from(defs, name, k + 1)
    }
}

/// The index of the first script function named `name` among `defs`.
pub open spec fn first_script_index(defs: Seq<FunctionDefInfo>, name: Seq<char>) -> Option<int> {
    first_script_from(defs, name, 0)
}

proof fn lemma_first_script_from(defs: Seq<FunctionDefInfo>, name: Seq<char>, k: int)
    requires
        0 <= k <= defs.len(),
        forall|j: int| 0 <= j < k ==> !is_script_named(#[trigger] defs[j], name),
    ensures
        match first_script_from(defs, name, k) {
            Some(i) => k <= i < defs.len() && is_script_named(defs[i], name) && forall|j: int|
                0 <= j < i ==> !is_script_named(#[trigger] defs[j], name),
            None => forall|j: int| 0 <= j < defs.len() ==> !is_script_named(#[trigger] defs[j], name),
        },
    decreases defs.len() - k,
{
    if k < defs.len() && !is_script_named(defs[k], name) {
        lemma_first_script_from(defs, name, k + 1);
    }
}

/// The script that a function definition describes.
pub open spec fn script_of(def: FunctionDefInfo) -> ScriptView {
    ScriptView {
        name: def.name@,
        parameters: layouts_view(def.parameters@),
        type_parameters: Seq::new(
            def.type_parameters@.len(),
            |k: int| abilities_of(def.type_parameters@[k].0),
        ),
        returns: layouts_view(def.returns@),
    }
}

/// The first script function of the module with the given name.
pub fn find_script_function(module: &CompiledModule, need_name: &str) -> (r: Option<Script>)
    ensures
        match (r, first_script_index(module.function_defs@, need_name@)) {
            (Some(script), Some(i)) => script@ == script_of(module.function_defs@[i]),
            (None, None) => true,
            _ => false,
        },
        match r {
            Some(script) => exists|i: int|
                0 <= i < module.function_defs@.len() && is_script_named(
                    #[trigger] module.function_defs@[i],
                    need_name@,
                ) && (forall|j: int|
                    0 <= j < i ==> !is_script_named(module.function_defs@[j], need_name@))
                    && script@ == script_of(module.function_defs@[i]),
            None => forall|j: int|
                0 <= j < module.function_defs@.len() ==> !is_script_named(
                    #[trigger] module.function_defs@[j],
                    need_name@,
                ),
        },
{
    let defs = &module.function_defs;
    let mut i: usize = 0;
    while i < defs.len()
        invariant
            i <= defs@.len(),
            defs == &module.function_defs,
            forall|j: int| 0 <= j < i ==> !is_script_named(#[trigger] defs@[j], need_name@),
            first_script_index(defs@, need_name@) == first_script_from(defs@, need_name@, i as int),
        decreases defs@.len() - i,
    {
        let def = &defs[i];
        let is_script = match def.visibility {
            Visibility::Script => true,
            _ => false,
        };
        proof {
            lemma_first_script_from(defs@, need_name@, i as int);
        }
        if is_script && str_eq(def.name.as_str(), need_name) {
            let mut type_parameters: Vec<TypeAbilities> = Vec::new();
            let mut k: usize = 0;
            while k < def.type_parameters.len()
                invariant
                    k <= def.type_parameters@.len(),
                    type_parameters@.len() == k,
                    forall|m: int|
                        0 <= m < k ==> (#[trigger] type_parameters@[m]).abilities@ == abilities_of(
                            def.type_parameters@[m].0,
                        ),
                decreases def.type_parameters@.len() - k,
            {
                type_parameters.push(TypeAbilities::from(&def.type_parameters[k]));
                k = k + 1;
            }
            let script = Script {
                name: def.name.clone(),
                parameters: duplicate_layouts(def.parameters.as_slice()),
                type_parameters,
                returns: duplicate_layouts(def.returns.as_slice()),
            };
            assert(script@.type_parameters =~= script_of(*def).type_parameters);
            assert(is_script_named(defs@[i as int], need_name@));
            return Some(script);
        }
        i = i + 1;
    }
    proof {
        lemma_first_script_from(defs@, need_name@, i as int);
    }
    None
}

} // verus!
