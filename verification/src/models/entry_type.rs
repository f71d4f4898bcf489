//! Entry types: the nine built-in kinds and the custom kinds a project defines.
use vstd::prelude::*;

use crate::error::{Result, WorldflowError};
use crate::ids::{parse_uuid_text, uuid_parse_result, uuid_text, uuid_to_string, Id};
use crate::text::{chars_eq_str, chars_of, push_str};

verus! {

broadcast use vstd::string::group_string_axioms;

/// A built-in entry type.
#[derive(Debug, Clone, Copy)]
pub struct BuiltinEntryType {
    /// Short identifier, such as `"character"`.
    pub key: &'static str,
    /// Display name.
    pub name: &'static str,
    /// Description.
    pub description: &'static str,
    /// Icon (an emoji).
    pub icon: &'static str,
    /// Colour (hex).
    pub color: &'static str,
}

/// Number of built-in entry types.
pub const BUILTIN_ENTRY_TYPE_COUNT: usize = 9;

/// The `i`-th built-in entry type, in the fixed order in which they are listed.
pub open spec fn builtin_type_spec(i: int) -> BuiltinEntryType {
    if i == 0 {
        BuiltinEntryType { key: "character", name: "人物", description: "故事中的人物角色", icon: "👤", color: "#3B82F6" }
    } else if i == 1 {
        BuiltinEntryType { key: "organization", name: "组织", description: "团体、势力、国家等组织", icon: "🏢", color: "#8B5CF6" }
    } else if i == 2 {
        BuiltinEntryType { key: "location", name: "地点", description: "地理位置、场景、地域", icon: "📍", color: "#EC4899" }
    } else if i == 3 {
        BuiltinEntryType { key: "item", name: "物品", description: "道具、装备、物件", icon: "📦", color: "#F59E0B" }
    } else if i == 4 {
        BuiltinEntryType { key: "creature", name: "生物", description: "非人类生物、怪物、动植物", icon: "🦁", color: "#10B981" }
    } else if i == 5 {
        BuiltinEntryType { key: "event", name: "事件", description: "情节、历史事件、发生的事情", icon: "⚡", color: "#EF4444" }
    } else if i == 6 {
        BuiltinEntryType { key: "concept", name: "概念", description: "设定、规则、理论、体系", icon: "💡", color: "#06B6D4" }
    } else if i == 7 {
        BuiltinEntryType { key: "culture", name: "文化", description: "文化、风俗、传统、习俗", icon: "🎭", color: "#A78BFA" }
    } else {
        BuiltinEntryType { key: "else", name: "其他", description: "其他不分类的词条", icon: "📄", color: "#6B7280" }
    }
}

/// The `i`-th built-in entry type.
pub fn builtin_entry_type_at(i: usize) -> (r: BuiltinEntryType)
    requires
        i < BUILTIN_ENTRY_TYPE_COUNT,
    ensures
        r == builtin_type_spec(i as int),
{
    if i == 0 {
        BuiltinEntryType { key: "character", name: "人物", description: "故事中的人物角色", icon: "👤", color: "#3B82F6" }
    } else if i == 1 {
        BuiltinEntryType { key: "organization", name: "组织", description: "团体、势力、国家等组织", icon: "🏢", color: "#8B5CF6" }
    } else if i == 2 {
        BuiltinEntryType { key: "location", name: "地点", description: "地理位置、场景、地域", icon: "📍", color: "#EC4899" }
    } else if i == 3 {
        BuiltinEntryType { key: "item", name: "物品", description: "道具、装备、物件", icon: "📦", color: "#F59E0B" }
    } else if i == 4 {
        BuiltinEntryType { key: "creature", name: "生物", description: "非人类生物、怪物、动植物", icon: "🦁", color: "#10B981" }
    } else if i == 5 {
        BuiltinEntryType { key: "event", name: "事件", description: "情节、历史事件、发生的事情", icon: "⚡", color: "#EF4444" }
    } else if i == 6 {
        BuiltinEntryType { key: "concept", name: "概念", description: "设定、规则、理论、体系", icon: "💡", color: "#06B6D4" }
    } else if i == 7 {
        BuiltinEntryType { key: "culture", name: "文化", description: "文化、风俗、传统、习俗", icon: "🎭", color: "#A78BFA" }
    } else {
        BuiltinEntryType { key: "else", name: "其他", description: "其他不分类的词条", icon: "📄", color: "#6B7280" }
    }
}

/// All built-in entry types, in their fixed order.
pub fn builtin_entry_types() -> (r: Vec<BuiltinEntryType>)
    ensures
        r@.len() == BUILTIN_ENTRY_TYPE_COUNT,
        forall|i: int| 0 <= i < BUILTIN_ENTRY_TYPE_COUNT ==> #[trigger] r@[i] == builtin_type_spec(i),
{
    let mut out: Vec<BuiltinEntryType> = Vec::new();
    let mut i: usize = 0;
    while i < BUILTIN_ENTRY_TYPE_COUNT
        invariant
            0 <= i <= BUILTIN_ENTRY_TYPE_COUNT,
            out@.len() == i,
            forall|k: int| 0 <= k < i ==> #[trigger] out@[k] == builtin_type_spec(k),
        decreases BUILTIN_ENTRY_TYPE_COUNT - i,
    {
        out.push(builtin_entry_type_at(i));
        i = i + 1;
    }
    out
}

/// Index of the first built-in type whose key is `key`, if any.
pub open spec fn builtin_index_of(key: Seq<char>) -> Option<int> {
    if exists|i: int| 0 <= i < BUILTIN_ENTRY_TYPE_COUNT && builtin_type_spec(i).key@ == key {
        Some(
            choose|i: int|
                0 <= i < BUILTIN_ENTRY_TYPE_COUNT && builtin_type_spec(i).key@ == key && forall|
                    j: int,
                |
                    0 <= j < i ==> builtin_type_spec(j).key@ != key,
        )
    } else {
        None
    }
}

/// Whether `key` is the key of a built-in entry type.
pub open spec fn is_builtin_key(key: Seq<char>) -> bool {
    exists|i: int| 0 <= i < BUILTIN_ENTRY_TYPE_COUNT && #[trigger] builtin_type_spec(i).key@ == key
}

/// The keys of the built-in types are pairwise distinct.
pub proof fn lemma_builtin_keys_distinct()
    ensures
        forall|i: int, j: int|
            0 <= i < j < BUILTIN_ENTRY_TYPE_COUNT ==> builtin_type_spec(i).key@
                != builtin_type_spec(j).key@,
{
    reveal_strlit("character");
    reveal_strlit("organization");
    reveal_strlit("location");
    reveal_strlit("item");
    reveal_strlit("creature");
    reveal_strlit("event");
    reveal_strlit("concept");
    reveal_strlit("culture");
    reveal_strlit("else");
    assert forall|i: int, j: int|
        0 <= i < j < BUILTIN_ENTRY_TYPE_COUNT implies builtin_type_spec(i).key@
            != builtin_type_spec(j).key@ by {
        let a = builtin_type_spec(i).key@;
        let b = builtin_type_spec(j).key@;
        if a.len() == b.len() {
            assert(a[0] != b[0] || a[1] != b[1]);
        }
    }
}

/// The built-in type whose key is `key` (`BUILTIN_ENTRY_TYPES.iter().find`).
pub fn get_builtin_type(key: &str) -> (r: Option<BuiltinEntryType>)
    ensures
        r is Some <==> is_builtin_key(key@),
        r matches Some(t) ==> t.key@ == key@ && exists|i: int|
            0 <= i < BUILTIN_ENTRY_TYPE_COUNT && builtin_type_spec(i) == t,
{
    let k = chars_of(key);
    let mut i: usize = 0;
    while i < BUILTIN_ENTRY_TYPE_COUNT
        invariant
            0 <= i <= BUILTIN_ENTRY_TYPE_COUNT,
            k@ == key@,
            forall|j: int| 0 <= j < i ==> builtin_type_spec(j).key@ != key@,
        decreases BUILTIN_ENTRY_TYPE_COUNT - i,
    {
        let t = builtin_entry_type_at(i);
        if chars_eq_str(k.as_slice(), t.key) {
            return Some(t);
        }
        i = i + 1;
    }
    None
}

/// Accepts a built-in type key, refuses anything else.
pub fn validate_builtin_type_key(key: &str) -> (r: Result<()>)
    ensures
        r is Ok <==> is_builtin_key(key@),
        r matches Err(e) ==> e matches WorldflowError::InvalidInput(m) && m@
            == "Invalid builtin entry type: "@ + key@,
{
    match get_builtin_type(key) {
        Some(_) => Ok(()),
        None => {
            let mut m = String::from_str("Invalid builtin entry type: ");
            push_str(&mut m, key);
            Err(WorldflowError::InvalidInput(m))
        },
    }
}

/// Whether a type text names a built-in type, that is, does not parse as a
/// UUID (`Uuid::try_parse(s).is_err()`).
pub fn is_builtin_type(s: &str) -> (r: bool)
    ensures
        r == (uuid_parse_result(s@) is None),
{
    parse_uuid_text(s).is_err()
}

/// A custom entry type defined by a project.
#[derive(Debug, Clone, PartialEq, Eq)]
pub struct CustomEntryType {
    pub id: Id,
    pub project_id: Id,
    pub name: String,
    pub description: Option<String>,
    pub icon: Option<String>,
    pub color: Option<String>,
    pub created_at: String,
    pub updated_at: String,
}

/// Input for creating a custom entry type.
#[derive(Debug, Clone)]
pub struct CreateCustomEntryType {
    pub project_id: Id,
    pub name: String,
    pub description: Option<String>,
    pub icon: Option<String>,
    pub color: Option<String>,
}

/// Changes to a custom entry type: `None` leaves a field alone, `Some(None)`
/// clears an optional field.
#[derive(Debug, Clone)]
pub struct UpdateCustomEntryType {
    pub name: Option<String>,
    pub description: Option<Option<String>>,
    pub icon: Option<Option<String>>,
    pub color: Option<Option<String>>,
}

/// A built-in or custom type, shown the same way.
#[derive(Debug, Clone)]
pub enum EntryTypeView {
    Builtin {
        key: &'static str,
        name: &'static str,
        description: &'static str,
        icon: &'static str,
        color: &'static str,
    },
    Custom(CustomEntryType),
}

/// Icon shown for a custom type without one.
pub open spec fn default_icon() -> Seq<char> {
    "📄"@
}

/// Colour shown for a custom type without one.
pub open spec fn default_color() -> Seq<char> {
    "#6B7280"@
}

impl EntryTypeView {
    /// The view of a built-in type.
    pub fn from_builtin(bt: BuiltinEntryType) -> (r: Self)
        ensures
            r == (EntryTypeView::Builtin {
                key: bt.key,
                name: bt.name,
                description: bt.description,
                icon: bt.icon,
                color: bt.color,
            }),
    {
        EntryTypeView::Builtin {
            key: bt.key,
            name: bt.name,
            description: bt.description,
            icon: bt.icon,
            color: bt.color,
        }
    }

    /// The view of a custom type.
    pub fn from_custom(ct: CustomEntryType) -> (r: Self)
        ensures
            r == EntryTypeView::Custom(ct),
    {
        EntryTypeView::Custom(ct)
    }

    /// The key of a built-in type, or the id text of a custom one.
    pub fn key_or_id(&self) -> (r: String)
        ensures
            r@ == match *self {
                EntryTypeView::Builtin { key, .. } => key@,
                EntryTypeView::Custom(ct) => uuid_text(ct.id),
            },
    {
        match self {
            EntryTypeView::Builtin { key, .. } => String::from_str(key),
            EntryTypeView::Custom(ct) => uuid_to_string(ct.id),
        }
    }

    /// The display name.
    pub fn name(&self) -> (r: &str)
        ensures
            r@ == match *self {
                EntryTypeView::Builtin { name, .. } => name@,
                EntryTypeView::Custom(ct) => ct.name@,
            },
    {
        match self {
            EntryTypeView::Builtin { name, .. } => name,
            EntryTypeView::Custom(ct) => ct.name.as_str(),
        }
    }

    /// The icon, with a default for custom types that have none.
    pub fn icon(&self) -> (r: &str)
        ensures
            r@ == match *self {
                EntryTypeView::Builtin { icon, .. } => icon@,
                EntryTypeView::Custom(ct) => match ct.icon {
                    Some(i) => i@,
                    None => default_icon(),
                },
            },
    {
        match self {
            EntryTypeView::Builtin { icon, .. } => icon,
            EntryTypeView::Custom(ct) => match &ct.icon {
                Some(i) => i.as_str(),
                None => "📄",
            },
        }
    }

    /// The colour, with a default for custom types that have none.
    pub fn color(&self) -> (r: &str)
        ensures
            r@ == match *self {
                EntryTypeView::Builtin { color, .. } => color@,
                EntryTypeView::Custom(ct) => match ct.color {
                    Some(c) => c@,
                    None => default_color(),
                },
            },
    {
        match self {
            EntryTypeView::Builtin { color, .. } => color,
            EntryTypeView::Custom(ct) => match &ct.color {
                Some(c) => c.as_str(),
                None => "#6B7280",
            },
        }
    }
}

/// The list of all types of a project: the built-in ones first, in their
/// fixed order, then the project's custom types in the order given.
pub fn all_entry_type_views(custom: Vec<CustomEntryType>) -> (r: Vec<EntryTypeView>)
    ensures
        r@.len() == BUILTIN_ENTRY_TYPE_COUNT + custom@.len(),
        forall|i: int|
            0 <= i < BUILTIN_ENTRY_TYPE_COUNT ==> #[trigger] r@[i] == (EntryTypeView::Builtin {
                key: builtin_type_spec(i).key,
                name: builtin_type_spec(i).name,
                description: builtin_type_spec(i).description,
                icon: builtin_type_spec(i).icon,
                color: builtin_type_spec(i).color,
            }),
        forall|i: int|
            0 <= i < custom@.len() ==> #[trigger] r@[BUILTIN_ENTRY_TYPE_COUNT + i]
                == EntryTypeView::Custom(custom@[i]),
{
    let mut out: Vec<EntryTypeView> = Vec::new();
    let mut i: usize = 0;
    while i < BUILTIN_ENTRY_TYPE_COUNT
        invariant
            0 <= i <= BUILTIN_ENTRY_TYPE_COUNT,
            out@.len() == i,
            forall|k: int|
                0 <= k < i ==> #[trigger] out@[k] == (EntryTypeView::Builtin {
                    key: builtin_type_spec(k).key,
                    name: builtin_type_spec(k).name,
                    description: builtin_type_spec(k).description,
                    icon: builtin_type_spec(k).icon,
                    color: builtin_type_spec(k).color,
                }),
        decreases BUILTIN_ENTRY_TYPE_COUNT - i,
    {
        out.push(EntryTypeView::from_builtin(builtin_entry_type_at(i)));
        i = i + 1;
    }
    let ghost base = out@;
    for ct in it: custom
        invariant
            base.len() == BUILTIN_ENTRY_TYPE_COUNT,
            out@ == base + it.history().map_values(|c: CustomEntryType| EntryTypeView::Custom(c)),
    {
        out.push(EntryTypeView::from_custom(ct));
        assert(out@ =~= base + it.history().push(ct).map_values(
            |c: CustomEntryType| EntryTypeView::Custom(c),
        ));
    }
    out
}

} // verus!
