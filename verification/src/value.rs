//! Plain values carried by template variables and field metadata (the JSON
//! scalars the generator reads, with composite values kept as their text).

use vstd::prelude::*;

verus! {

/// A JSON value as the generator sees it. Numbers keep their decimal text;
/// arrays and objects keep their serialized JSON text.
#[derive(Debug, Clone, PartialEq, Eq)]
pub enum DataValue {
    Null,
    Bool(bool),
    Number(String),
    Text(String),
    Composite(String),
}

impl DataValue {
    /// An equal copy.
    pub fn dup(&self) -> (r: DataValue)
        ensures
            r == *self,
    {
        match self {
            DataValue::Null => DataValue::Null,
            DataValue::Bool(b) => DataValue::Bool(*b),
            DataValue::Number(s) => DataValue::Number(s.clone()),
            DataValue::Text(s) => DataValue::Text(s.clone()),
            DataValue::Composite(s) => DataValue::Composite(s.clone()),
        }
    }
}

/// A value as plain data.
pub enum ValueView {
    Null,
    Bool(bool),
    Number(Seq<char>),
    Text(Seq<char>),
    Composite(Seq<char>),
}

impl View for DataValue {
    type V = ValueView;

    open spec fn view(&self) -> ValueView {
        match self {
            DataValue::Null => ValueView::Null,
            DataValue::Bool(b) => ValueView::Bool(*b),
            DataValue::Number(s) => ValueView::Number(s@),
            DataValue::Text(s) => ValueView::Text(s@),
            DataValue::Composite(s) => ValueView::Composite(s@),
        }
    }
}

/// A string-keyed map of values seen as plain data.
pub open spec fn value_map_view(m: Map<Seq<char>, DataValue>) -> Map<Seq<char>, ValueView> {
    m.map_values(|v: DataValue| v@)
}

pub broadcast proof fn lemma_value_map_view_insert(m: Map<Seq<char>, DataValue>, k: Seq<char>, v: DataValue)
    ensures
        #[trigger] value_map_view(m.insert(k, v)) == value_map_view(m).insert(k, v@),
{
    assert(value_map_view(m.insert(k, v)) =~= value_map_view(m).insert(k, v@));
}

} // verus!
