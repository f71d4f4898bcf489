//! The tag schemas a new project can start with: a timeline for events.
use vstd::prelude::*;

verus! {

broadcast use vstd::string::group_string_axioms;

/// A tag schema created with a new project. Such schemas have no range.
#[derive(Debug, Clone, Copy, PartialEq, Eq)]
pub struct TimelineTagDefinition {
    pub name: &'static str,
    pub description: &'static str,
    pub value_type: &'static str,
    pub default_value: Option<&'static str>,
    pub sort_order: i64,
}

/// The timeline schemas: start year, end year, parent event, whether shown.
pub open spec fn timeline_tag_spec(i: int) -> (Seq<char>, Seq<char>, Seq<char>, Option<Seq<char>>) {
    if i == 0 {
        ("开始年份"@, "事件在时间线上的起始年份。公元前年份请填写负数，例如 -221。"@, "number"@, None)
    } else if i == 1 {
        ("结束年份"@, "事件结束年份；若留空则视为单点事件。"@, "number"@, None)
    } else if i == 2 {
        ("父事件ID"@, "用于把事件挂到上层事件下，可填写父事件词条 ID 或标题。"@, "string"@, None)
    } else {
        ("时间线"@, "是否在项目时间线中显示该事件。"@, "boolean"@, Some("true"@))
    }
}

/// The four timeline schemas, in order, sort orders 0 to 3.
pub fn default_timeline_tag_definitions() -> (r: Vec<TimelineTagDefinition>)
    ensures
        r@.len() == 4,
        forall|i: int|
            0 <= i < 4 ==> {
                let d = #[trigger] r@[i];
                let s = timeline_tag_spec(i);
                &&& d.name@ == s.0
                &&& d.description@ == s.1
                &&& d.value_type@ == s.2
                &&& (d.default_value is None <==> s.3 is None)
                &&& (d.default_value matches Some(v) ==> s.3 == Some(v@))
                &&& d.sort_order == i
            },
{
    let mut v: Vec<TimelineTagDefinition> = Vec::new();
    v.push(TimelineTagDefinition {
        name: "开始年份",
        description: "事件在时间线上的起始年份。公元前年份请填写负数，例如 -221。",
        value_type: "number",
        default_value: None,
        sort_order: 0,
    });
    v.push(TimelineTagDefinition {
        name: "结束年份",
        description: "事件结束年份；若留空则视为单点事件。",
        value_type: "number",
        default_value: None,
        sort_order: 1,
    });
    v.push(TimelineTagDefinition {
        name: "父事件ID",
        description: "用于把事件挂到上层事件下，可填写父事件词条 ID 或标题。",
        value_type: "string",
        default_value: None,
        sort_order: 2,
    });
    v.push(TimelineTagDefinition {
        name: "时间线",
        description: "是否在项目时间线中显示该事件。",
        value_type: "boolean",
        default_value: Some("true"),
        sort_order: 3,
    });
    v
}

/// The entry types the timeline schemas apply to: events.
pub fn default_timeline_tag_targets() -> (r: Vec<String>)
    ensures
        r@.len() == 1,
        r@[0]@ == "event"@,
{
    let mut v: Vec<String> = Vec::new();
    v.push(String::from_str("event"));
    v
}

} // verus!
