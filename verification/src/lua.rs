//! The configuration API that a Lua script calls (`sgs.label{...}`,
//! `sgs.window(name, {...})`, ...): how each builder turns its option table
//! into a widget or a window. A Lua value is modelled by [`LuaValue`], which
//! holds what the builders read of it.

use vstd::prelude::*;
use crate::text::str_eq;
use crate::widget::{
    Action, ActiveWindowNode, Anchor, BatteryNode, BoxNode, ButtonNode, CenterBoxNode, ClockNode,
    CpuNode, LabelNode, Layer, MemoryNode, Orientation, VolumeNode, WidgetNode, WindowConfig,
    WorkspacesNode, ActionView, opt_action_view, classes_view,
};

verus! {

broadcast use vstd::string::group_string_axioms;

/// The type of a Lua value, as Lua names it.
#[derive(Debug, Clone, Copy, PartialEq, Eq, Structural)]
pub enum LuaType {
    Nil,
    Boolean,
    LightUserData,
    Integer,
    Number,
    String,
    Table,
    Function,
    Thread,
    UserData,
    Error,
    Other,
}

/// A Lua value as the builders read it.
#[derive(Debug)]
pub enum LuaValue {
    Nil,
    /// A Lua string: its text with invalid UTF-8 replaced (`lossy`), its
    /// conversion to a Rust string (none unless valid UTF-8), and its
    /// conversion to an `i32` (`number`; a string holding a number converts).
    Str { lossy: String, text: Option<String>, number: Option<i32> },
    /// A number (`integer` tells integer from float): its conversion to a
    /// string and to an `i32`.
    Num { integer: bool, text: Option<String>, number: Option<i32> },
    /// A table, by its sequence part (`t[1]`, `t[2]`, ... up to the first
    /// nil). The entries of a table inside it are not read by any builder.
    Table(Vec<LuaValue>),
    /// A userdata holding a widget built by an earlier call.
    Widget(WidgetNode),
    /// A userdata holding anything else.
    UserData,
    /// A value of another type.
    Other(LuaType),
}

/// An option table: its string-keyed fields.
#[derive(Debug)]
pub struct LuaTable {
    pub fields: Vec<(String, LuaValue)>,
}

/// A widget as a Lua script holds it.
#[derive(Debug)]
pub struct LuaWidget(pub WidgetNode);

/// What the configuration script has declared so far.
#[derive(Debug)]
pub struct LuaRuntimeState {
    pub windows: Vec<WindowConfig>,
}

/// A slot of a center box.
#[derive(Debug, Clone, Copy, PartialEq, Eq, Structural)]
pub enum Slot {
    Start,
    Center,
    End,
}

/// Why a builder refuses its options.
#[derive(Debug, Clone, Copy, PartialEq, Eq, Structural)]
pub enum ConfigError {
    /// A widget was expected and a value of type `from` was found.
    NotUserData { from: LuaType },
    /// A userdata that is not a widget was found where a widget was expected.
    UserDataMismatch,
    /// A center-box slot holds something other than a widget or nil.
    ExpectedWidgetOrNil { slot: Slot },
    /// `children` is neither a table nor nil.
    ExpectedChildrenTable,
}

// ---------------------------------------------------------------------------
// Reading values
// ---------------------------------------------------------------------------

/// The value of `key` in the fields: the first field with that key, else nil.
pub open spec fn lookup(fields: Seq<(String, LuaValue)>, key: Seq<char>) -> LuaValue
    decreases fields.len(),
{
    if fields.len() == 0 {
        LuaValue::Nil
    } else if fields[0].0@ == key {
        fields[0].1
    } else {
        lookup(fields.drop_first(), key)
    }
}

/// The value of `key` in an option table.
pub open spec fn field(t: LuaTable, key: Seq<char>) -> LuaValue {
    lookup(t.fields@, key)
}

/// What a value converts to as a Rust string.
pub open spec fn as_text(v: LuaValue) -> Option<Seq<char>> {
    match v {
        LuaValue::Str { text: Some(t), .. } => Some(t@),
        LuaValue::Num { text: Some(t), .. } => Some(t@),
        _ => None,
    }
}

/// What a value converts to as an `i32`.
pub open spec fn as_int(v: LuaValue) -> Option<i32> {
    match v {
        LuaValue::Str { number, .. } => number,
        LuaValue::Num { number, .. } => number,
        _ => None,
    }
}

/// The type of a value.
pub open spec fn type_of(v: LuaValue) -> LuaType {
    match v {
        LuaValue::Nil => LuaType::Nil,
        LuaValue::Str { .. } => LuaType::String,
        LuaValue::Num { integer, .. } => if integer {
            LuaType::Integer
        } else {
            LuaType::Number
        },
        LuaValue::Table(_) => LuaType::Table,
        LuaValue::Widget(_) => LuaType::UserData,
        LuaValue::UserData => LuaType::UserData,
        LuaValue::Other(t) => t,
    }
}

/// The name Lua gives a type.
pub open spec fn spec_lua_type_name(t: LuaType) -> Seq<char> {
    match t {
        LuaType::Nil => "nil"@,
        LuaType::Boolean => "boolean"@,
        LuaType::LightUserData => "lightuserdata"@,
        LuaType::Integer => "integer"@,
        LuaType::Number => "number"@,
        LuaType::String => "string"@,
        LuaType::Table => "table"@,
        LuaType::Function => "function"@,
        LuaType::Thread => "thread"@,
        LuaType::UserData => "userdata"@,
        LuaType::Error => "error"@,
        LuaType::Other => "other"@,
    }
}

/// The name Lua gives a type (used in conversion errors).
pub fn lua_type_name(t: LuaType) -> (r: &'static str)
    ensures
        r@ == spec_lua_type_name(t),
{
    match t {
        LuaType::Nil => "nil",
        LuaType::Boolean => "boolean",
        LuaType::LightUserData => "lightuserdata",
        LuaType::Integer => "integer",
        LuaType::Number => "number",
        LuaType::String => "string",
        LuaType::Table => "table",
        LuaType::Function => "function",
        LuaType::Thread => "thread",
        LuaType::UserData => "userdata",
        LuaType::Error => "error",
        LuaType::Other => "other",
    }
}

/// The index of the first field with `key`, if any.
fn find_field(fields: &Vec<(String, LuaValue)>, key: &str) -> (r: Option<usize>)
    ensures
        match r {
            Some(i) => i < fields@.len() && fields@[i as int].0@ == key@ && forall|j: int|
                0 <= j < i ==> fields@[j].0@ != key@,
            None => forall|j: int| 0 <= j < fields@.len() ==> fields@[j].0@ != key@,
        },
{
    let mut i: usize = 0;
    while i < fields.len()
        invariant
            i <= fields@.len(),
            forall|j: int| 0 <= j < i ==> fields@[j].0@ != key@,
        decreases fields.len() - i,
    {
        if str_eq(fields[i].0.as_str(), key) {
            return Some(i);
        }
        i = i + 1;
    }
    None
}

proof fn lemma_lookup_at(fields: Seq<(String, LuaValue)>, key: Seq<char>, i: int)
    requires
        0 <= i < fields.len(),
        fields[i].0@ == key,
        forall|j: int| 0 <= j < i ==> fields[j].0@ != key,
    ensures
        lookup(fields, key) == fields[i].1,
    decreases i,
{
    if i > 0 {
        lemma_lookup_at(fields.drop_first(), key, i - 1);
    }
}

proof fn lemma_lookup_none(fields: Seq<(String, LuaValue)>, key: Seq<char>)
    requires
        forall|j: int| 0 <= j < fields.len() ==> fields[j].0@ != key,
    ensures
        lookup(fields, key) == LuaValue::Nil,
    decreases fields.len(),
{
    if fields.len() > 0 {
        lemma_lookup_none(fields.drop_first(), key);
    }
}

proof fn lemma_lookup_remove(fields: Seq<(String, LuaValue)>, i: int, k: Seq<char>)
    requires
        0 <= i < fields.len(),
        fields[i].0@ != k,
    ensures
        lookup(fields.remove(i), k) == lookup(fields, k),
    decreases i,
{
    if i > 0 {
        lemma_lookup_remove(fields.drop_first(), i - 1, k);
        assert(fields.remove(i).drop_first() =~= fields.drop_first().remove(i - 1));
    } else {
        assert(fields.remove(0) =~= fields.drop_first());
    }
}

/// The value of `key` in `t`, by reference.
pub fn get_field<'a>(t: &'a LuaTable, key: &str) -> (r: Option<&'a LuaValue>)
    ensures
        match r {
            Some(v) => *v == field(*t, key@),
            None => field(*t, key@) == LuaValue::Nil,
        },
{
    match find_field(&t.fields, key) {
        Some(i) => {
            proof {
                lemma_lookup_at(t.fields@, key@, i as int);
            }
            Some(&t.fields[i].1)
        },
        None => {
            proof {
                lemma_lookup_none(t.fields@, key@);
            }
            None
        },
    }
}

/// Takes the value of `key` out of `t`; the other keys keep their values.
pub fn take_field(t: &mut LuaTable, key: &str) -> (r: LuaValue)
    ensures
        r == field(*old(t), key@),
        forall|k: Seq<char>| k != key@ ==> #[trigger] field(*final(t), k) == field(*old(t), k),
{
    match find_field(&t.fields, key) {
        Some(i) => {
            proof {
                lemma_lookup_at(t.fields@, key@, i as int);
            }
            let ghost before = t.fields@;
            let (_, v) = t.fields.remove(i);
            proof {
                assert forall|k: Seq<char>| k != key@ implies #[trigger] lookup(t.fields@, k) == lookup(
                    before,
                    k,
                ) by {
                    lemma_lookup_remove(before, i as int, k);
                }
            }
            v
        },
        None => {
            proof {
                lemma_lookup_none(t.fields@, key@);
            }
            LuaValue::Nil
        },
    }
}

/// The text of a value, if it converts to a string.
fn text_of(v: &LuaValue) -> (r: Option<String>)
    ensures
        match as_text(*v) {
            Some(t) => r matches Some(s) && s@ == t,
            None => r is None,
        },
{
    match v {
        LuaValue::Str { text: Some(t), .. } => Some(t.clone()),
        LuaValue::Num { text: Some(t), .. } => Some(t.clone()),
        _ => None,
    }
}


/// The texts of those of `items` that convert to a string, in order.
pub open spec fn texts(items: Seq<LuaValue>) -> Seq<Seq<char>>
    decreases items.len(),
{
    if items.len() == 0 {
        seq![]
    } else {
        match as_text(items.last()) {
            Some(t) => texts(items.drop_last()).push(t),
            None => texts(items.drop_last()),
        }
    }
}

/// The texts of the items that convert to a string (skipping the others).
fn collect_texts(items: &Vec<LuaValue>) -> (r: Vec<String>)
    ensures
        classes_view(r@) == texts(items@),
{
    let mut out: Vec<String> = Vec::new();
    let mut i: usize = 0;
    while i < items.len()
        invariant
            i <= items@.len(),
            classes_view(out@) == texts(items@.take(i as int)),
        decreases items.len() - i,
    {
        let ghost prev = out@;
        assert(items@.take(i + 1).drop_last() =~= items@.take(i as int));
        assert(items@.take(i + 1).last() == items@[i as int]);
        match text_of(&items[i]) {
            Some(s) => {
                out.push(s);
                assert(classes_view(out@) =~= classes_view(prev).push(out@.last()@));
            },
            None => {},
        }
        i = i + 1;
    }
    assert(items@.take(items@.len() as int) =~= items@);
    out
}

/// What `opts[key]` gives as a string, or `default`.
pub open spec fn spec_get_string(t: LuaTable, key: Seq<char>, default: Seq<char>) -> Seq<char> {
    match as_text(field(t, key)) {
        Some(s) => s,
        None => default,
    }
}

/// `opts[key]` as a string, or `default` when it does not convert.
pub fn get_string(opts: &LuaTable, key: &str, default: &str) -> (r: String)
    ensures
        r@ == spec_get_string(*opts, key@, default@),
{
    match get_field(opts, key) {
        Some(v) => match text_of(v) {
            Some(s) => s,
            None => default.to_string(),
        },
        None => default.to_string(),
    }
}

/// `opts[key]` as an `i32`, if it converts.
pub fn get_int(opts: &LuaTable, key: &str) -> (r: Option<i32>)
    ensures
        r == as_int(field(*opts, key@)),
{
    match get_field(opts, key) {
        Some(LuaValue::Str { number, .. }) => *number,
        Some(LuaValue::Num { number, .. }) => *number,
        _ => None,
    }
}

/// A list of strings as an option gives it: a string is a list of one
/// (read lossily); a table lists those of its items that are strings or
/// numbers; anything else is the empty list.
pub open spec fn spec_string_list(v: LuaValue) -> Seq<Seq<char>> {
    match v {
        LuaValue::Str { lossy, .. } => seq![lossy@],
        LuaValue::Table(items) => texts(items@),
        _ => seq![],
    }
}

/// A list of strings from a value (see [`spec_string_list`]).
fn string_list_of(v: Option<&LuaValue>) -> (r: Vec<String>)
    ensures
        classes_view(r@) == spec_string_list(
            match v {
                Some(x) => *x,
                None => LuaValue::Nil,
            },
        ),
{
    match v {
        Some(LuaValue::Str { lossy, .. }) => {
            let mut out: Vec<String> = Vec::new();
            out.push(lossy.clone());
            assert(classes_view(out@) =~= seq![lossy@]);
            out
        },
        Some(LuaValue::Table(items)) => collect_texts(items),
        _ => {
            let out: Vec<String> = Vec::new();
            assert(classes_view(out@) =~= Seq::<Seq<char>>::empty());
            out
        },
    }
}

/// The CSS classes of a widget (`opts.class`).
pub fn get_class(opts: &LuaTable) -> (r: Vec<String>)
    ensures
        classes_view(r@) == spec_string_list(field(*opts, "class"@)),
{
    string_list_of(get_field(opts, "class"))
}

/// The list of strings under `key`.
pub fn get_string_list(opts: &LuaTable, key: &str) -> (r: Vec<String>)
    ensures
        classes_view(r@) == spec_string_list(field(*opts, key@)),
{
    string_list_of(get_field(opts, key))
}

/// The layer a name selects: `background`, `bottom`, `overlay`, and `top`
/// for every other name.
pub open spec fn spec_layer(name: Seq<char>) -> Layer {
    if name == "background"@ {
        Layer::Background
    } else if name == "bottom"@ {
        Layer::Bottom
    } else if name == "overlay"@ {
        Layer::Overlay
    } else {
        Layer::Top
    }
}

/// The layer a name selects.
pub fn parse_layer(value: &str) -> (r: Layer)
    ensures
        r == spec_layer(value@),
{
    if str_eq(value, "background") {
        Layer::Background
    } else if str_eq(value, "bottom") {
        Layer::Bottom
    } else if str_eq(value, "overlay") {
        Layer::Overlay
    } else {
        Layer::Top
    }
}

/// The anchors of a bar along the top edge: top, left and right.
pub open spec fn default_anchors() -> Seq<Anchor> {
    seq![Anchor::Top, Anchor::Left, Anchor::Right]
}

/// The anchors a single name selects: the named edge and the two edges
/// across it, so that the bar spans that side of the screen.
pub open spec fn spec_edge_anchors(name: Seq<char>) -> Seq<Anchor> {
    if name == "top"@ {
        seq![Anchor::Top, Anchor::Left, Anchor::Right]
    } else if name == "bottom"@ {
        seq![Anchor::Bottom, Anchor::Left, Anchor::Right]
    } else if name == "left"@ {
        seq![Anchor::Top, Anchor::Bottom, Anchor::Left]
    } else if name == "right"@ {
        seq![Anchor::Top, Anchor::Bottom, Anchor::Right]
    } else {
        default_anchors()
    }
}

/// The edge an anchor name in a list denotes.
pub open spec fn spec_anchor_name(name: Seq<char>) -> Option<Anchor> {
    if name == "top"@ {
        Some(Anchor::Top)
    } else if name == "bottom"@ {
        Some(Anchor::Bottom)
    } else if name == "left"@ {
        Some(Anchor::Left)
    } else if name == "right"@ {
        Some(Anchor::Right)
    } else {
        None
    }
}

/// The edges named in a list of texts, in order, skipping other names.
pub open spec fn named_edges(names: Seq<Seq<char>>) -> Seq<Anchor>
    decreases names.len(),
{
    if names.len() == 0 {
        seq![]
    } else {
        match spec_anchor_name(names.last()) {
            Some(a) => named_edges(names.drop_last()).push(a),
            None => named_edges(names.drop_last()),
        }
    }
}

/// The anchors of a window (`opts.anchor`): a single name selects a side
/// (see [`spec_edge_anchors`]); a list names edges one by one; when nothing
/// is named the bar is anchored to the top.
pub open spec fn spec_anchors(v: LuaValue) -> Seq<Anchor> {
    match v {
        LuaValue::Str { lossy, .. } => spec_edge_anchors(lossy@),
        LuaValue::Table(items) => if named_edges(texts(items@)).len() == 0 {
            default_anchors()
        } else {
            named_edges(texts(items@))
        },
        _ => default_anchors(),
    }
}

fn default_anchor_vec() -> (r: Vec<Anchor>)
    ensures
        r@ == default_anchors(),
{
    let mut v: Vec<Anchor> = Vec::new();
    v.push(Anchor::Top);
    v.push(Anchor::Left);
    v.push(Anchor::Right);
    assert(v@ =~= default_anchors());
    v
}

fn anchors3(a: Anchor, b: Anchor, c: Anchor) -> (r: Vec<Anchor>)
    ensures
        r@ == seq![a, b, c],
{
    let mut v: Vec<Anchor> = Vec::new();
    v.push(a);
    v.push(b);
    v.push(c);
    assert(v@ =~= seq![a, b, c]);
    v
}

fn anchor_name(name: &str) -> (r: Option<Anchor>)
    ensures
        r == spec_anchor_name(name@),
{
    if str_eq(name, "top") {
        Some(Anchor::Top)
    } else if str_eq(name, "bottom") {
        Some(Anchor::Bottom)
    } else if str_eq(name, "left") {
        Some(Anchor::Left)
    } else if str_eq(name, "right") {
        Some(Anchor::Right)
    } else {
        None
    }
}

/// The anchors of a window (see [`spec_anchors`]).
pub fn parse_anchors(opts: &LuaTable) -> (r: Vec<Anchor>)
    ensures
        r@ == spec_anchors(field(*opts, "anchor"@)),
        r@.len() > 0,
{
    match get_field(opts, "anchor") {
        Some(LuaValue::Str { lossy, .. }) => {
            let n = lossy.as_str();
            if str_eq(n, "top") {
                anchors3(Anchor::Top, Anchor::Left, Anchor::Right)
            } else if str_eq(n, "bottom") {
                anchors3(Anchor::Bottom, Anchor::Left, Anchor::Right)
            } else if str_eq(n, "left") {
                anchors3(Anchor::Top, Anchor::Bottom, Anchor::Left)
            } else if str_eq(n, "right") {
                anchors3(Anchor::Top, Anchor::Bottom, Anchor::Right)
            } else {
                default_anchor_vec()
            }
        },
        Some(LuaValue::Table(items)) => {
            let names = collect_texts(items);
            let ghost tx = texts(items@);
            let mut out: Vec<Anchor> = Vec::new();
            let mut i: usize = 0;
            while i < names.len()
                invariant
                    i <= names@.len(),
                    classes_view(names@) == tx,
                    out@ == named_edges(tx.take(i as int)),
                decreases names.len() - i,
            {
                assert(tx.take(i + 1).drop_last() =~= tx.take(i as int));
                assert(tx[i as int] == names@[i as int]@);
                match anchor_name(names[i].as_str()) {
                    Some(a) => {
                        out.push(a);
                    },
                    None => {},
                }
                i = i + 1;
            }
            assert(tx.take(names@.len() as int) =~= tx);
            if out.len() == 0 {
                default_anchor_vec()
            } else {
                out
            }
        },
        _ => default_anchor_vec(),
    }
}

/// Whatever a window's options, it is anchored to at least one edge.
pub proof fn law_anchors_nonempty(v: LuaValue)
    ensures
        spec_anchors(v).len() > 0,
{
}

// ---------------------------------------------------------------------------
// Reading widgets
// ---------------------------------------------------------------------------

/// What a required widget option gives.
pub open spec fn spec_required_widget(v: LuaValue) -> Result<WidgetNode, ConfigError> {
    match v {
        LuaValue::Widget(n) => Ok(n),
        LuaValue::UserData => Err(ConfigError::UserDataMismatch),
        _ => Err(ConfigError::NotUserData { from: type_of(v) }),
    }
}

/// Takes the widget under `key` (`sgs.window`'s `child`).
pub fn get_required_widget(opts: &mut LuaTable, key: &str) -> (r: Result<WidgetNode, ConfigError>)
    ensures
        r == spec_required_widget(field(*old(opts), key@)),
        forall|k: Seq<char>| k != key@ ==> #[trigger] field(*final(opts), k) == field(*old(opts), k),
{
    let v = take_field(opts, key);
    match v {
        LuaValue::Widget(n) => Ok(n),
        LuaValue::UserData => Err(ConfigError::UserDataMismatch),
        LuaValue::Nil => Err(ConfigError::NotUserData { from: LuaType::Nil }),
        LuaValue::Str { .. } => Err(ConfigError::NotUserData { from: LuaType::String }),
        LuaValue::Num { integer, .. } => Err(
            ConfigError::NotUserData {
                from: if integer {
                    LuaType::Integer
                } else {
                    LuaType::Number
                },
            },
        ),
        LuaValue::Table(_) => Err(ConfigError::NotUserData { from: LuaType::Table }),
        LuaValue::Other(t) => Err(ConfigError::NotUserData { from: t }),
    }
}

/// What an optional widget option gives.
pub open spec fn spec_optional_widget(v: LuaValue, slot: Slot) -> Result<Option<WidgetNode>, ConfigError> {
    match v {
        LuaValue::Nil => Ok(None),
        LuaValue::Widget(n) => Ok(Some(n)),
        LuaValue::UserData => Err(ConfigError::UserDataMismatch),
        _ => Err(ConfigError::ExpectedWidgetOrNil { slot }),
    }
}

/// The option key of a center-box slot.
pub open spec fn slot_key(slot: Slot) -> Seq<char> {
    match slot {
        Slot::Start => "start"@,
        Slot::Center => "center"@,
        Slot::End => "end"@,
    }
}

/// The option key of a center-box slot.
pub fn slot_name(slot: Slot) -> (r: &'static str)
    ensures
        r@ == slot_key(slot),
{
    match slot {
        Slot::Start => "start",
        Slot::Center => "center",
        Slot::End => "end",
    }
}

/// Takes the widget of a center-box slot, if there is one.
pub fn get_optional_widget(opts: &mut LuaTable, slot: Slot) -> (r: Result<Option<WidgetNode>, ConfigError>)
    ensures
        r == spec_optional_widget(field(*old(opts), slot_key(slot)), slot),
        forall|k: Seq<char>| k != slot_key(slot) ==> #[trigger] field(*final(opts), k) == field(
            *old(opts),
            k,
        ),
{
    let v = take_field(opts, slot_name(slot));
    match v {
        LuaValue::Nil => Ok(None),
        LuaValue::Widget(n) => Ok(Some(n)),
        LuaValue::UserData => Err(ConfigError::UserDataMismatch),
        _ => Err(ConfigError::ExpectedWidgetOrNil { slot }),
    }
}

/// The widgets of a list of items: all of them must be widgets; the first
/// that is not gives the error.
pub open spec fn spec_widget_items(items: Seq<LuaValue>) -> Result<Seq<WidgetNode>, ConfigError>
    decreases items.len(),
{
    if items.len() == 0 {
        Ok(seq![])
    } else {
        match spec_required_widget(items[0]) {
            Err(e) => Err(e),
            Ok(n) => match spec_widget_items(items.drop_first()) {
                Ok(rest) => Ok(seq![n] + rest),
                Err(e) => Err(e),
            },
        }
    }
}

/// What `opts.children` gives: none when nil, the widgets of a table, and
/// an error for anything else.
pub open spec fn spec_children(v: LuaValue) -> Result<Seq<WidgetNode>, ConfigError> {
    match v {
        LuaValue::Nil => Ok(seq![]),
        LuaValue::Table(items) => spec_widget_items(items@),
        _ => Err(ConfigError::ExpectedChildrenTable),
    }
}

/// Takes the children of a box.
pub fn get_children(opts: &mut LuaTable) -> (r: Result<Vec<WidgetNode>, ConfigError>)
    ensures
        match spec_children(field(*old(opts), "children"@)) {
            Ok(ns) => r matches Ok(v) && v@ == ns,
            Err(e) => r == Err::<Vec<WidgetNode>, ConfigError>(e),
        },
        forall|k: Seq<char>| k != "children"@ ==> #[trigger] field(*final(opts), k) == field(
            *old(opts),
            k,
        ),
{
    let ghost gv = field(*old(opts), "children"@);
    let v = take_field(opts, "children");
    match v {
        LuaValue::Nil => Ok(Vec::new()),
        LuaValue::Table(items) => {
            let ghost all = items@;
            let mut rest = items;
            let mut out: Vec<WidgetNode> = Vec::new();
            let ghost mut done: int = 0;
            assert(all.skip(0) =~= all);
            proof {
                match spec_widget_items(all) {
                    Ok(s) => {
                        assert(out@ + s =~= s);
                    },
                    Err(_) => {},
                }
            }
            while rest.len() > 0
                invariant
                    spec_children(gv) == spec_widget_items(all),
                    forall|k: Seq<char>| k != "children"@ ==> #[trigger] field(*opts, k) == field(
                        *old(opts),
                        k,
                    ),
                    gv == field(*old(opts), "children"@),
                    0 <= done <= all.len(),
                    rest@ == all.skip(done),
                    spec_widget_items(all) == match spec_widget_items(all.skip(done)) {
                        Ok(s) => Ok(out@ + s),
                        Err(e) => Err(e),
                    },
                decreases rest.len(),
            {
                let item = rest.remove(0);
                let ghost tail = all.skip(done);
                assert(tail[0] == item);
                assert(tail.drop_first() =~= all.skip(done + 1));
                let ghost prev = out@;
                match item {
                    LuaValue::Widget(n) => {
                        out.push(n);
                        proof {
                            match spec_widget_items(all.skip(done + 1)) {
                                Ok(s) => {
                                    assert(prev + (seq![n] + s) =~= out@ + s);
                                },
                                Err(e) => {},
                            }
                            done = done + 1;
                        }
                    },
                    LuaValue::UserData => {
                        return Err(ConfigError::UserDataMismatch);
                    },
                    LuaValue::Nil => {
                        return Err(ConfigError::NotUserData { from: LuaType::Nil });
                    },
                    LuaValue::Str { .. } => {
                        return Err(ConfigError::NotUserData { from: LuaType::String });
                    },
                    LuaValue::Num { integer, .. } => {
                        return Err(
                            ConfigError::NotUserData {
                                from: if integer {
                                    LuaType::Integer
                                } else {
                                    LuaType::Number
                                },
                            },
                        );
                    },
                    LuaValue::Table(_) => {
                        return Err(ConfigError::NotUserData { from: LuaType::Table });
                    },
                    LuaValue::Other(t) => {
                        return Err(ConfigError::NotUserData { from: t });
                    },
                }
            }
            assert(all.skip(done) =~= Seq::<LuaValue>::empty());
            assert(out@ + Seq::<WidgetNode>::empty() =~= out@);
            Ok(out)
        },
        _ => Err(ConfigError::ExpectedChildrenTable),
    }
}

// ---------------------------------------------------------------------------
// Builders
// ---------------------------------------------------------------------------

/// The classes every builder reads from `opts.class`.
pub open spec fn spec_class(opts: LuaTable) -> Seq<Seq<char>> {
    spec_string_list(field(opts, "class"@))
}

/// `sgs.label{ text = "", class }`.
pub fn build_label(opts: LuaTable) -> (r: WidgetNode)
    ensures
        r matches WidgetNode::Label(l) && l.text@ == spec_get_string(opts, "text"@, ""@)
            && classes_view(l.class@) == spec_class(opts),
{
    let text = get_string(&opts, "text", "");
    let class = get_class(&opts);
    WidgetNode::Label(LabelNode { class, text })
}

/// The action of a button: `command` (a shell command) if it is a string,
/// else `hypr_dispatch` if it is one, else none.
pub open spec fn spec_on_click(opts: LuaTable) -> Option<ActionView> {
    match as_text(field(opts, "command"@)) {
        Some(c) => Some(ActionView::Command(c)),
        None => match as_text(field(opts, "hypr_dispatch"@)) {
            Some(d) => Some(ActionView::HyprDispatch(d)),
            None => None,
        },
    }
}

/// `sgs.button{ text = "", class, command | hypr_dispatch }`.
pub fn build_button(opts: LuaTable) -> (r: WidgetNode)
    ensures
        r matches WidgetNode::Button(b) && b.text@ == spec_get_string(opts, "text"@, ""@)
            && classes_view(b.class@) == spec_class(opts) && opt_action_view(b.on_click)
            == spec_on_click(opts),
{
    let text = get_string(&opts, "text", "");
    let class = get_class(&opts);
    let on_click = match get_field(&opts, "command") {
        Some(v) => match text_of(v) {
            Some(c) => Some(Action::Command(c)),
            None => None,
        },
        None => None,
    };
    let on_click = match on_click {
        Some(a) => Some(a),
        None => match get_field(&opts, "hypr_dispatch") {
            Some(v) => match text_of(v) {
                Some(d) => Some(Action::HyprDispatch(d)),
                None => None,
            },
            None => None,
        },
    };
    WidgetNode::Button(ButtonNode { class, text, on_click })
}

/// `sgs.clock{ format = "%H:%M:%S", class }`.
pub fn build_clock(opts: LuaTable) -> (r: WidgetNode)
    ensures
        r matches WidgetNode::Clock(c) && c.format@ == spec_get_string(opts, "format"@, "%H:%M:%S"@)
            && classes_view(c.class@) == spec_class(opts),
{
    let format = get_string(&opts, "format", "%H:%M:%S");
    let class = get_class(&opts);
    WidgetNode::Clock(ClockNode { class, format })
}

/// `sgs.battery{ class }`.
pub fn build_battery(opts: LuaTable) -> (r: WidgetNode)
    ensures
        r matches WidgetNode::Battery(n) && classes_view(n.class@) == spec_class(opts),
{
    WidgetNode::Battery(BatteryNode { class: get_class(&opts) })
}

/// `sgs.cpu{ class }`.
pub fn build_cpu(opts: LuaTable) -> (r: WidgetNode)
    ensures
        r matches WidgetNode::Cpu(n) && classes_view(n.class@) == spec_class(opts),
{
    WidgetNode::Cpu(CpuNode { class: get_class(&opts) })
}

/// `sgs.memory{ class }`.
pub fn build_memory(opts: LuaTable) -> (r: WidgetNode)
    ensures
        r matches WidgetNode::Memory(n) && classes_view(n.class@) == spec_class(opts),
{
    WidgetNode::Memory(MemoryNode { class: get_class(&opts) })
}

/// `sgs.volume{ class }`.
pub fn build_volume(opts: LuaTable) -> (r: WidgetNode)
    ensures
        r matches WidgetNode::Volume(n) && classes_view(n.class@) == spec_class(opts),
{
    WidgetNode::Volume(VolumeNode { class: get_class(&opts) })
}

/// `sgs.active_window{ class }`.
pub fn build_active_window(opts: LuaTable) -> (r: WidgetNode)
    ensures
        r matches WidgetNode::ActiveWindow(n) && classes_view(n.class@) == spec_class(opts),
{
    WidgetNode::ActiveWindow(ActiveWindowNode { class: get_class(&opts) })
}

/// `sgs.workspaces{ class, button_class, count = 5 }`.
pub fn build_workspaces(opts: LuaTable) -> (r: WidgetNode)
    ensures
        r matches WidgetNode::Workspaces(w) && classes_view(w.class@) == spec_class(opts)
            && classes_view(w.button_class@) == spec_string_list(field(opts, "button_class"@))
            && w.count == match as_int(field(opts, "count"@)) {
            Some(c) => c,
            None => 5,
        },
{
    let class = get_class(&opts);
    let button_class = get_string_list(&opts, "button_class");
    let count = match get_int(&opts, "count") {
        Some(c) => c,
        None => 5,
    };
    WidgetNode::Workspaces(WorkspacesNode { class, button_class, count })
}

/// The orientation of a box: vertical when `orientation` is `"vertical"`,
/// else horizontal.
pub open spec fn spec_orientation(opts: LuaTable) -> Orientation {
    if spec_get_string(opts, "orientation"@, "horizontal"@) == "vertical"@ {
        Orientation::Vertical
    } else {
        Orientation::Horizontal
    }
}

/// `sgs.box{ class, orientation = "horizontal", children }`.
pub fn build_box(opts: LuaTable) -> (r: Result<WidgetNode, ConfigError>)
    ensures
        match spec_children(field(opts, "children"@)) {
            Ok(ns) => r matches Ok(WidgetNode::Box(b)) && classes_view(b.class@) == spec_class(opts)
                && b.orientation == spec_orientation(opts) && b.children@ == ns,
            Err(e) => r == Err::<WidgetNode, ConfigError>(e),
        },
{
    let mut opts = opts;
    let class = get_class(&opts);
    let o = get_string(&opts, "orientation", "horizontal");
    let orientation = if str_eq(o.as_str(), "vertical") {
        Orientation::Vertical
    } else {
        Orientation::Horizontal
    };
    let children = match get_children(&mut opts) {
        Ok(x) => x,
        Err(e) => {
            return Err(e);
        },
    };
    Ok(WidgetNode::Box(BoxNode { class, orientation, children }))
}

/// The view of an optional boxed widget.
pub open spec fn unbox(w: Option<Box<WidgetNode>>) -> Option<WidgetNode> {
    match w {
        Some(b) => Some(*b),
        None => None,
    }
}

/// The three slots of a center box, read in order; the first refused slot
/// gives the error.
pub open spec fn spec_slots(opts: LuaTable) -> Result<
    (Option<WidgetNode>, Option<WidgetNode>, Option<WidgetNode>),
    ConfigError,
> {
    match spec_optional_widget(field(opts, "start"@), Slot::Start) {
        Err(e) => Err(e),
        Ok(s) => match spec_optional_widget(field(opts, "center"@), Slot::Center) {
            Err(e) => Err(e),
            Ok(c) => match spec_optional_widget(field(opts, "end"@), Slot::End) {
                Err(e) => Err(e),
                Ok(en) => Ok((s, c, en)),
            },
        },
    }
}

fn boxed(w: Option<WidgetNode>) -> (r: Option<Box<WidgetNode>>)
    ensures
        unbox(r) == w,
{
    match w {
        Some(n) => Some(Box::new(n)),
        None => None,
    }
}

/// `sgs.centerbox{ class, start, center, end }`.
pub fn build_centerbox(opts: LuaTable) -> (r: Result<WidgetNode, ConfigError>)
    ensures
        match spec_slots(opts) {
            Ok((s, c, e)) => r matches Ok(WidgetNode::CenterBox(b)) && classes_view(b.class@)
                == spec_class(opts) && unbox(b.start) == s && unbox(b.center) == c && unbox(b.end)
                == e,
            Err(e) => r == Err::<WidgetNode, ConfigError>(e),
        },
{
    let mut opts = opts;
    proof {
        reveal_strlit("start");
        reveal_strlit("center");
        reveal_strlit("end");
    }
    let class = get_class(&opts);
    let ghost o0 = opts;
    let start = match get_optional_widget(&mut opts, Slot::Start) {
        Ok(x) => x,
        Err(e) => {
            return Err(e);
        },
    };
    assert("center"@.len() == 6 && "start"@.len() == 5 && "end"@.len() == 3);
    assert("center"@ != "start"@ && "end"@ != "start"@ && "end"@ != "center"@);
    assert(field(opts, "center"@) == field(o0, "center"@));
    assert(field(opts, "end"@) == field(o0, "end"@));
    let ghost o1 = opts;
    let center = match get_optional_widget(&mut opts, Slot::Center) {
        Ok(x) => x,
        Err(e) => {
            return Err(e);
        },
    };
    assert(field(opts, "end"@) == field(o1, "end"@));
    let end = match get_optional_widget(&mut opts, Slot::End) {
        Ok(x) => x,
        Err(e) => {
            return Err(e);
        },
    };
    Ok(
        WidgetNode::CenterBox(
            CenterBoxNode { class, start: boxed(start), center: boxed(center), end: boxed(end) },
        ),
    )
}

/// `sgs.window(name, { class, child, layer = "top", anchor, monitor = 0,
/// height, width })`: a window needs a `child` widget.
pub fn build_window(name: String, opts: LuaTable) -> (r: Result<WindowConfig, ConfigError>)
    ensures
        match spec_required_widget(field(opts, "child"@)) {
            Ok(child) => r matches Ok(w) && w.name@ == name@ && w.child == child
                && classes_view(w.class@) == spec_class(opts)
                && w.layer == spec_layer(spec_get_string(opts, "layer"@, "top"@))
                && w.anchor@ == spec_anchors(field(opts, "anchor"@))
                && w.monitor == match as_int(field(opts, "monitor"@)) {
                    Some(m) => m,
                    None => 0,
                }
                && w.height == as_int(field(opts, "height"@))
                && w.width == as_int(field(opts, "width"@)),
            Err(e) => r matches Err(x) && x == e,
        },
{
    let mut opts = opts;
    let class = get_class(&opts);
    let layer_name = get_string(&opts, "layer", "top");
    let layer = parse_layer(layer_name.as_str());
    let anchor = parse_anchors(&opts);
    let monitor = match get_int(&opts, "monitor") {
        Some(m) => m,
        None => 0,
    };
    let height = get_int(&opts, "height");
    let width = get_int(&opts, "width");
    let child = match get_required_widget(&mut opts, "child") {
        Ok(x) => x,
        Err(e) => {
            return Err(e);
        },
    };
    Ok(WindowConfig { name, monitor, layer, anchor, height, width, class, child })
}

impl LuaRuntimeState {
    /// A state with no window declared.
    pub fn new() -> (r: Self)
        ensures
            r.windows@.len() == 0,
    {
        LuaRuntimeState { windows: Vec::new() }
    }

    /// Records a declared window after the earlier ones.
    pub fn push_window(&mut self, window: WindowConfig)
        ensures
            final(self).windows@ == old(self).windows@.push(window),
    {
        self.windows.push(window);
    }
}

// ---------------------------------------------------------------------------
// Laws
// ---------------------------------------------------------------------------

proof fn lemma_edge_name_literals()
    ensures
        "top"@.len() == 3,
        "bottom"@.len() == 6,
        "left"@.len() == 4,
        "right"@.len() == 5,
        "background"@.len() == 10,
        "overlay"@.len() == 7,
        "top"@ != "bottom"@ && "top"@ != "left"@ && "top"@ != "right"@,
        "bottom"@ != "left"@ && "bottom"@ != "right"@ && "left"@ != "right"@,
        "background"@ != "bottom"@ && "background"@ != "overlay"@ && "bottom"@ != "overlay"@,
{
    reveal_strlit("top");
    reveal_strlit("bottom");
    reveal_strlit("left");
    reveal_strlit("right");
    reveal_strlit("background");
    reveal_strlit("overlay");
    assert("top"@.len() == 3 && "bottom"@.len() == 6 && "left"@.len() == 4 && "right"@.len() == 5);
    assert("background"@.len() == 10 && "overlay"@.len() == 7);
}

/// In a list of anchors each of the names `top`, `bottom`, `left` and
/// `right` denotes its own edge, and no other name denotes an edge.
pub proof fn law_anchor_names(name: Seq<char>)
    ensures
        spec_anchor_name("top"@) == Some(Anchor::Top),
        spec_anchor_name("bottom"@) == Some(Anchor::Bottom),
        spec_anchor_name("left"@) == Some(Anchor::Left),
        spec_anchor_name("right"@) == Some(Anchor::Right),
        name != "top"@ && name != "bottom"@ && name != "left"@ && name != "right"@
            ==> spec_anchor_name(name) is None,
{
    lemma_edge_name_literals();
}

/// Whether `name` is one of the four edge names.
pub open spec fn is_edge_name(name: Seq<char>) -> bool {
    name == "top"@ || name == "bottom"@ || name == "left"@ || name == "right"@
}

/// A list made only of edge names gives one anchor per name, in order,
/// each the edge it names.
pub proof fn law_named_edges_in_order(names: Seq<Seq<char>>)
    requires
        forall|i: int| 0 <= i < names.len() ==> is_edge_name(#[trigger] names[i]),
    ensures
        named_edges(names).len() == names.len(),
        forall|i: int|
            0 <= i < names.len() ==> {
                &&& names[i] == "top"@ ==> #[trigger] named_edges(names)[i] == Anchor::Top
                &&& names[i] == "bottom"@ ==> named_edges(names)[i] == Anchor::Bottom
                &&& names[i] == "left"@ ==> named_edges(names)[i] == Anchor::Left
                &&& names[i] == "right"@ ==> named_edges(names)[i] == Anchor::Right
            },
    decreases names.len(),
{
    lemma_edge_name_literals();
    if names.len() > 0 {
        let init = names.drop_last();
        assert forall|i: int| 0 <= i < init.len() implies is_edge_name(#[trigger] init[i]) by {
            assert(init[i] == names[i]);
        }
        law_named_edges_in_order(init);
        assert(is_edge_name(names.last()));
        assert forall|i: int| 0 <= i < names.len() - 1 implies names[i] == init[i] by {}
    }
}

/// The texts of items that all convert to a string are those strings, in
/// order.
proof fn lemma_texts_all(items: Seq<LuaValue>)
    requires
        forall|i: int| 0 <= i < items.len() ==> (#[trigger] as_text(items[i])) is Some,
    ensures
        texts(items).len() == items.len(),
        forall|i: int| 0 <= i < items.len() ==> #[trigger] texts(items)[i] == as_text(items[i])->0,
    decreases items.len(),
{
    if items.len() > 0 {
        let init = items.drop_last();
        assert forall|i: int| 0 <= i < init.len() implies (#[trigger] as_text(init[i])) is Some by {
            assert(init[i] == items[i]);
        }
        lemma_texts_all(init);
        assert(as_text(items.last()) is Some);
        assert forall|i: int| 0 <= i < items.len() - 1 implies items[i] == init[i] by {}
    }
}

/// An anchor list of edge names anchors the window to exactly those edges,
/// in the order listed (`{ "top", "right" }` gives top and right).
pub proof fn law_anchor_list(items: Seq<LuaValue>)
    requires
        items.len() > 0,
        forall|i: int|
            0 <= i < items.len() ==> (#[trigger] as_text(items[i])) is Some && is_edge_name(
                as_text(items[i])->0,
            ),
    ensures
        forall|v: Vec<LuaValue>|
            v@ == items ==> {
                &&& #[trigger] spec_anchors(LuaValue::Table(v)).len() == items.len()
                &&& forall|i: int|
                    0 <= i < items.len() ==> {
                        &&& as_text(items[i]) == Some("top"@) ==> #[trigger] spec_anchors(
                            LuaValue::Table(v),
                        )[i] == Anchor::Top
                        &&& as_text(items[i]) == Some("bottom"@) ==> spec_anchors(
                            LuaValue::Table(v),
                        )[i] == Anchor::Bottom
                        &&& as_text(items[i]) == Some("left"@) ==> spec_anchors(
                            LuaValue::Table(v),
                        )[i] == Anchor::Left
                        &&& as_text(items[i]) == Some("right"@) ==> spec_anchors(
                            LuaValue::Table(v),
                        )[i] == Anchor::Right
                    }
            },
{
    lemma_texts_all(items);
    let names = texts(items);
    assert forall|i: int| 0 <= i < names.len() implies is_edge_name(#[trigger] names[i]) by {
        assert(names[i] == as_text(items[i])->0);
    }
    law_named_edges_in_order(names);
    assert forall|v: Vec<LuaValue>| v@ == items implies {
        &&& #[trigger] spec_anchors(LuaValue::Table(v)).len() == items.len()
        &&& forall|i: int|
            0 <= i < items.len() ==> {
                &&& as_text(items[i]) == Some("top"@) ==> #[trigger] spec_anchors(
                    LuaValue::Table(v),
                )[i] == Anchor::Top
                &&& as_text(items[i]) == Some("bottom"@) ==> spec_anchors(LuaValue::Table(v))[i]
                    == Anchor::Bottom
                &&& as_text(items[i]) == Some("left"@) ==> spec_anchors(LuaValue::Table(v))[i]
                    == Anchor::Left
                &&& as_text(items[i]) == Some("right"@) ==> spec_anchors(LuaValue::Table(v))[i]
                    == Anchor::Right
            }
    } by {
        assert(spec_anchors(LuaValue::Table(v)) == named_edges(names));
        assert forall|i: int| 0 <= i < items.len() implies names[i] == as_text(items[i])->0 by {}
    }
}

/// A single anchor name anchors the window along that side: to the named
/// edge and the two edges across it; any other name, or no anchor, gives a
/// bar along the top.
pub proof fn law_anchor_sides(name: Seq<char>)
    ensures
        spec_edge_anchors("top"@) == seq![Anchor::Top, Anchor::Left, Anchor::Right],
        spec_edge_anchors("bottom"@) == seq![Anchor::Bottom, Anchor::Left, Anchor::Right],
        spec_edge_anchors("left"@) == seq![Anchor::Top, Anchor::Bottom, Anchor::Left],
        spec_edge_anchors("right"@) == seq![Anchor::Top, Anchor::Bottom, Anchor::Right],
        !is_edge_name(name) ==> spec_edge_anchors(name) == seq![Anchor::Top, Anchor::Left, Anchor::Right],
        spec_anchors(LuaValue::Nil) == seq![Anchor::Top, Anchor::Left, Anchor::Right],
{
    lemma_edge_name_literals();
}

/// The layer names select their layer; every other name selects the top
/// layer.
pub proof fn law_layer_names(name: Seq<char>)
    ensures
        spec_layer("background"@) == Layer::Background,
        spec_layer("bottom"@) == Layer::Bottom,
        spec_layer("overlay"@) == Layer::Overlay,
        spec_layer("top"@) == Layer::Top,
        name != "background"@ && name != "bottom"@ && name != "overlay"@ ==> spec_layer(name)
            == Layer::Top,
{
    lemma_edge_name_literals();
    reveal_strlit("top");
    reveal_strlit("overlay");
    reveal_strlit("background");
    assert("top"@ != "background"@ && "top"@ != "overlay"@);
}

/// A string option is read when it converts to a string, and otherwise the
/// default is used.
pub proof fn law_get_string(t: LuaTable, key: Seq<char>, default: Seq<char>)
    ensures
        as_text(field(t, key)) matches Some(s) ==> spec_get_string(t, key, default) == s,
        as_text(field(t, key)) is None ==> spec_get_string(t, key, default) == default,
        field(t, key) matches LuaValue::Str { text: Some(s), .. } ==> spec_get_string(
            t,
            key,
            default,
        ) == s@,
        field(t, key) matches LuaValue::Num { text: Some(s), .. } ==> spec_get_string(
            t,
            key,
            default,
        ) == s@,
        field(t, key) is Nil ==> spec_get_string(t, key, default) == default,
{
}

/// A class option that is a string is that one class; a list keeps its
/// strings in order; anything else gives no class.
pub proof fn law_string_list(v: LuaValue)
    ensures
        v matches LuaValue::Str { lossy, .. } ==> spec_string_list(v) == seq![lossy@],
        v is Nil ==> spec_string_list(v) == Seq::<Seq<char>>::empty(),
        v is Widget ==> spec_string_list(v) == Seq::<Seq<char>>::empty(),
        v matches LuaValue::Table(items) ==> ((forall|i: int|
            0 <= i < items@.len() ==> (#[trigger] as_text(items@[i])) is Some) ==> {
            &&& spec_string_list(v).len() == items@.len()
            &&& forall|i: int|
                0 <= i < items@.len() ==> #[trigger] spec_string_list(v)[i] == as_text(items@[i])->0
        }),
{
    if let LuaValue::Table(items) = v {
        if forall|i: int| 0 <= i < items@.len() ==> (#[trigger] as_text(items@[i])) is Some {
            lemma_texts_all(items@);
        }
    }
}

/// A button runs its `command` when that is a string, else its
/// `hypr_dispatch`, else nothing.
pub proof fn law_button_action(opts: LuaTable)
    ensures
        as_text(field(opts, "command"@)) matches Some(c) ==> spec_on_click(opts) == Some(
            ActionView::Command(c),
        ),
        as_text(field(opts, "command"@)) is None ==> (as_text(field(opts, "hypr_dispatch"@)) matches Some(
            d,
        ) ==> spec_on_click(opts) == Some(ActionView::HyprDispatch(d))),
        as_text(field(opts, "command"@)) is None && as_text(field(opts, "hypr_dispatch"@)) is None
            ==> spec_on_click(opts) is None,
{
}

/// A box is vertical exactly when its `orientation` reads `"vertical"`.
pub proof fn law_box_orientation(opts: LuaTable)
    ensures
        (spec_orientation(opts) == Orientation::Vertical) <==> (spec_get_string(
            opts,
            "orientation"@,
            "horizontal"@,
        ) == "vertical"@),
        spec_orientation(opts) == Orientation::Vertical || spec_orientation(opts)
            == Orientation::Horizontal,
{
}

/// A required widget option gives the widget it holds; a userdata that is
/// not a widget and a value of any other type are refused, the latter
/// naming its type.
pub proof fn law_required_widget(v: LuaValue)
    ensures
        v matches LuaValue::Widget(n) ==> spec_required_widget(v) == Ok::<WidgetNode, ConfigError>(n),
        v is UserData ==> spec_required_widget(v) == Err::<WidgetNode, ConfigError>(
            ConfigError::UserDataMismatch,
        ),
        v is Nil ==> spec_required_widget(v) == Err::<WidgetNode, ConfigError>(
            ConfigError::NotUserData { from: LuaType::Nil },
        ),
        v is Str ==> spec_required_widget(v) == Err::<WidgetNode, ConfigError>(
            ConfigError::NotUserData { from: LuaType::String },
        ),
        v is Table ==> spec_required_widget(v) == Err::<WidgetNode, ConfigError>(
            ConfigError::NotUserData { from: LuaType::Table },
        ),
        v matches LuaValue::Num { integer, .. } ==> spec_required_widget(v) == Err::<
            WidgetNode,
            ConfigError,
        >(
            ConfigError::NotUserData {
                from: if integer {
                    LuaType::Integer
                } else {
                    LuaType::Number
                },
            },
        ),
        v matches LuaValue::Other(t) ==> spec_required_widget(v) == Err::<WidgetNode, ConfigError>(
            ConfigError::NotUserData { from: t },
        ),
{
}

/// A center-box slot may be empty (nil) or hold a widget; anything else is
/// refused, naming the slot.
pub proof fn law_optional_widget(v: LuaValue, slot: Slot)
    ensures
        v is Nil ==> spec_optional_widget(v, slot) == Ok::<Option<WidgetNode>, ConfigError>(None),
        v matches LuaValue::Widget(n) ==> spec_optional_widget(v, slot) == Ok::<
            Option<WidgetNode>,
            ConfigError,
        >(Some(n)),
        v is UserData ==> spec_optional_widget(v, slot) == Err::<Option<WidgetNode>, ConfigError>(
            ConfigError::UserDataMismatch,
        ),
        (v is Str || v is Num || v is Table || v is Other) ==> spec_optional_widget(v, slot) == Err::<
            Option<WidgetNode>,
            ConfigError,
        >(ConfigError::ExpectedWidgetOrNil { slot }),
        slot_key(Slot::Start) == "start"@ && slot_key(Slot::Center) == "center"@ && slot_key(
            Slot::End,
        ) == "end"@,
{
}

/// The slots of a center box are read from `start`, `center` and `end`,
/// each into its own place.
pub proof fn law_center_slots(opts: LuaTable)
    ensures
        spec_slots(opts) matches Ok((s, c, e)) ==> {
            &&& spec_optional_widget(field(opts, "start"@), Slot::Start) == Ok::<
                Option<WidgetNode>,
                ConfigError,
            >(s)
            &&& spec_optional_widget(field(opts, "center"@), Slot::Center) == Ok::<
                Option<WidgetNode>,
                ConfigError,
            >(c)
            &&& spec_optional_widget(field(opts, "end"@), Slot::End) == Ok::<
                Option<WidgetNode>,
                ConfigError,
            >(e)
        },
        field(opts, "start"@) matches LuaValue::Widget(n) ==> (field(opts, "center"@) is Nil
            && field(opts, "end"@) is Nil ==> spec_slots(opts) == Ok::<
            (Option<WidgetNode>, Option<WidgetNode>, Option<WidgetNode>),
            ConfigError,
        >((Some(n), None, None))),
        field(opts, "end"@) matches LuaValue::Widget(n) ==> (field(opts, "center"@) is Nil && field(
            opts,
            "start"@,
        ) is Nil ==> spec_slots(opts) == Ok::<
            (Option<WidgetNode>, Option<WidgetNode>, Option<WidgetNode>),
            ConfigError,
        >((None, None, Some(n)))),
{
}

/// The children of a box are the widgets of its list, in order; no list
/// gives no children.
pub proof fn law_children(v: LuaValue)
    ensures
        v is Nil ==> spec_children(v) == Ok::<Seq<WidgetNode>, ConfigError>(seq![]),
        v matches LuaValue::Table(items) ==> ((forall|i: int|
            0 <= i < items@.len() ==> (#[trigger] items@[i]) is Widget) ==> (spec_children(v) matches Ok(
            ns,
        ) && ns.len() == items@.len() && forall|i: int|
            0 <= i < items@.len() ==> items@[i] == LuaValue::Widget(#[trigger] ns[i]))),
        (v is Str || v is Num || v is Widget || v is UserData || v is Other) ==> spec_children(v)
            == Err::<Seq<WidgetNode>, ConfigError>(ConfigError::ExpectedChildrenTable),
{
    if let LuaValue::Table(items) = v {
        if forall|i: int| 0 <= i < items@.len() ==> (#[trigger] items@[i]) is Widget {
            lemma_widget_items(items@);
        }
    }
}

proof fn lemma_widget_items(items: Seq<LuaValue>)
    requires
        forall|i: int| 0 <= i < items.len() ==> (#[trigger] items[i]) is Widget,
    ensures
        spec_widget_items(items) matches Ok(ns) && ns.len() == items.len() && forall|i: int|
            0 <= i < items.len() ==> items[i] == LuaValue::Widget(#[trigger] ns[i]),
    decreases items.len(),
{
    if items.len() > 0 {
        let rest = items.drop_first();
        assert forall|i: int| 0 <= i < rest.len() implies (#[trigger] rest[i]) is Widget by {
            assert(rest[i] == items[i + 1]);
        }
        lemma_widget_items(rest);
        assert(items[0] is Widget);
        let ns = spec_widget_items(items)->Ok_0;
        let rs = spec_widget_items(rest)->Ok_0;
        assert forall|i: int| 0 <= i < items.len() implies items[i] == LuaValue::Widget(
            #[trigger] ns[i],
        ) by {
            if i > 0 {
                assert(ns[i] == rs[i - 1]);
                assert(items[i] == rest[i - 1]);
            }
        }
    }
}

/// Lua's names of its types.
pub proof fn law_lua_type_names()
    ensures
        spec_lua_type_name(LuaType::Nil) == "nil"@,
        spec_lua_type_name(LuaType::String) == "string"@,
        spec_lua_type_name(LuaType::Integer) == "integer"@,
        spec_lua_type_name(LuaType::Number) == "number"@,
        spec_lua_type_name(LuaType::Table) == "table"@,
        spec_lua_type_name(LuaType::UserData) == "userdata"@,
        spec_lua_type_name(LuaType::Boolean) == "boolean"@,
        spec_lua_type_name(LuaType::Function) == "function"@,
        spec_lua_type_name(LuaType::Thread) == "thread"@,
        spec_lua_type_name(LuaType::LightUserData) == "lightuserdata"@,
        spec_lua_type_name(LuaType::Error) == "error"@,
        spec_lua_type_name(LuaType::Other) == "other"@,
{
}

} // verus!
