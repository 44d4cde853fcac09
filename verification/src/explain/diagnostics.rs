//! The diagnostics of a parser, which the index keeps as JSON.

use vstd::prelude::*;

use crate::explain::{ExplainLimitation, ExplainLimitationView};
use crate::text;

verus! {

/// A field of an object: its name, and its value where that is a text.
#[derive(Debug, Clone, PartialEq, Eq)]
pub struct JsonField {
    pub name: String,
    pub text: Option<String>,
}

/// What a [`JsonField`] stands for.
#[verifier::ext_equal]
pub struct JsonFieldView {
    pub name: Seq<char>,
    pub text: Option<Seq<char>>,
}

impl DeepView for JsonField {
    type V = JsonFieldView;

    open spec fn deep_view(&self) -> JsonFieldView {
        JsonFieldView { name: self.name@, text: self.text.deep_view() }
    }
}

/// An item of a list: its fields, where it is an object.
#[derive(Debug, Clone, PartialEq, Eq)]
pub struct JsonItem {
    pub fields: Option<Vec<JsonField>>,
}

/// What a [`JsonItem`] stands for.
#[verifier::ext_equal]
pub struct JsonItemView {
    pub fields: Option<Seq<JsonFieldView>>,
}

impl DeepView for JsonItem {
    type V = JsonItemView;

    open spec fn deep_view(&self) -> JsonItemView {
        JsonItemView { fields: self.fields.deep_view() }
    }
}

/// The items of a JSON list; none where the text is not the JSON of a list.
pub uninterp spec fn json_items(source: Seq<char>) -> Option<Seq<JsonItemView>>;

/// `serde_json::from_str` into a list of values: whether a text is the JSON of a list, and
/// what its items are, depends on the text alone. Of each item the fields are kept, of
/// each field the text. How JSON is written is left open.
#[verifier::external_body]
fn read_items(source: &str) -> (out: Option<Vec<JsonItem>>)
    ensures
        out.deep_view() == json_items(source@),
{
    let values = serde_json::from_str::<Vec<serde_json::Value>>(source).ok()?;
    let field = |(name, value): (&String, &serde_json::Value)| JsonField {
        name: name.clone(),
        text: value.as_str().map(str::to_owned),
    };
    let item = |value: &serde_json::Value| JsonItem {
        fields: value.as_object().map(|object| object.iter().map(field).collect()),
    };
    Some(values.iter().map(item).collect())
}

/// The text of the field `name`.
pub open spec fn field_text(fields: Seq<JsonFieldView>, name: Seq<char>) -> Option<Seq<char>>
    decreases fields.len(),
{
    if fields.len() == 0 {
        None
    } else if fields[0].name == name {
        fields[0].text
    } else {
        field_text(fields.skip(1), name)
    }
}

fn find_text(fields: &Vec<JsonField>, name: &str) -> (out: Option<String>)
    ensures
        out.deep_view() == field_text(fields.deep_view(), name@),
{
    let ghost all = fields.deep_view();
    let mut i: usize = 0;
    assert(all.skip(0) =~= all);
    while i < fields.len()
        invariant
            i <= fields.len(),
            all == fields.deep_view(),
            field_text(all, name@) == field_text(all.skip(i as int), name@),
        decreases fields.len() - i,
    {
        let field = &fields[i];
        assert(all.skip(i as int)[0] == field.deep_view());
        assert(all.skip(i as int).skip(1) =~= all.skip(i + 1));
        if text::same(field.name.as_str(), name) {
            return match &field.text {
                Some(value) => Some(value.clone()),
                None => None,
            };
        }
        i = i + 1;
    }
    None
}

/// The diagnostic that an item gives: it has a code and a message.
pub open spec fn diagnostic_of(item: JsonItemView) -> Option<ExplainLimitationView> {
    match item.fields {
        None => None,
        Some(fields) => match (field_text(fields, "code"@), field_text(fields, "message"@)) {
            (Some(code), Some(message)) => Some(ExplainLimitationView { code, message }),
            _ => None,
        },
    }
}

fn diagnostic_from_item(item: &JsonItem) -> (out: Option<ExplainLimitation>)
    ensures
        out.deep_view() == diagnostic_of(item.deep_view()),
{
    let fields = match &item.fields {
        Some(fields) => fields,
        None => return None,
    };
    match (find_text(fields, "code"), find_text(fields, "message")) {
        (Some(code), Some(message)) => Some(ExplainLimitation { code, message }),
        _ => None,
    }
}

/// The diagnostics that items give, in their order.
pub open spec fn listed_diagnostics(items: Seq<JsonItemView>) -> Seq<ExplainLimitationView>
    decreases items.len(),
{
    if items.len() == 0 {
        Seq::empty()
    } else {
        let before = listed_diagnostics(items.drop_last());
        match diagnostic_of(items.last()) {
            Some(diagnostic) => before.push(diagnostic),
            None => before,
        }
    }
}

/// The diagnostics that a list gives, or one that says that it could not be read.
pub open spec fn diagnostics_of(items: Option<Seq<JsonItemView>>) -> Seq<ExplainLimitationView> {
    match items {
        None => seq![
            ExplainLimitationView {
                code: "invalid_diagnostics_json"@,
                message: "Stored parser diagnostics JSON could not be decoded."@,
            },
        ],
        Some(items) => listed_diagnostics(items),
    }
}

/// The diagnostics that a list gives, or one that says that it could not be read.
pub fn diagnostics_from_items(items: &Option<Vec<JsonItem>>) -> (out: Vec<ExplainLimitation>)
    ensures
        out.deep_view() == diagnostics_of(items.deep_view()),
{
    let mut out: Vec<ExplainLimitation> = Vec::new();
    match items {
        None => {
            out.push(
                ExplainLimitation {
                    code: "invalid_diagnostics_json".to_string(),
                    message: "Stored parser diagnostics JSON could not be decoded.".to_string(),
                },
            );
            assert(out.deep_view() =~= diagnostics_of(items.deep_view()));
        },
        Some(items) => {
            let ghost all = items.deep_view();
            let mut i: usize = 0;
            assert(out.deep_view() =~= listed_diagnostics(all.take(0)));
            while i < items.len()
                invariant
                    i <= items.len(),
                    all == items.deep_view(),
                    out.deep_view() == listed_diagnostics(all.take(i as int)),
                decreases items.len() - i,
            {
                assert(all.take(i + 1).drop_last() =~= all.take(i as int));
                assert(all.take(i + 1).last() == items@[i as int].deep_view());
                if let Some(diagnostic) = diagnostic_from_item(&items[i]) {
                    let ghost before = out.deep_view();
                    out.push(diagnostic);
                    assert(out.deep_view() =~= before.push(diagnostic.deep_view()));
                }
                i = i + 1;
            }
            assert(all.take(i as int) =~= all);
        },
    }
    out
}

/// The diagnostics that the index keeps as JSON.
pub fn parse_diagnostics_json(value: &str) -> (out: Vec<ExplainLimitation>)
    ensures
        out.deep_view() == diagnostics_of(json_items(value@)),
{
    diagnostics_from_items(&read_items(value))
}

} // verus!
