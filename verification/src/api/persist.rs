//! Writing the settings back into the configuration file.
//!
//! The file is edited, not rewritten: the entries that are none of ours stay, and ours keep
//! their places and the comments above them. What an edit does is stated over the entries of
//! the document and over its layout; how the text comes of these is up to `toml_edit`, and not
//! proved here.

use crate::chars;
use crate::config::Config;
use vstd::prelude::*;
use vstd::string::*;

verus! {

// ---- Documents ----

/// An editable TOML document.
#[verifier::external_type_specification]
#[verifier::external_body]
pub struct ExDocumentMut(toml_edit::DocumentMut);

/// A value in a table: a text, or anything else, told apart by a code.
pub ghost enum TomlValue {
    Text(Seq<char>),
    Other(int),
}

/// An item at the top of a document: a table under a header of its own, a table written
/// in braces, or anything else, told apart by a code.
pub ghost enum TomlItem {
    Table(Map<Seq<char>, TomlValue>),
    Inline(Map<Seq<char>, TomlValue>),
    Other(int),
}

/// How an entry of a table is written: its key, with its spelling and the comments and the
/// space around it, and its value, with those around it. Each is told apart by a code; `None`
/// is the plain form of what was put there by a program.
pub ghost struct EntryLayout {
    pub name: Seq<char>,
    pub key: Option<int>,
    pub value: Option<int>,
}

/// How an item at the top of a document is written: its key, and its header or its braces with
/// the comments and the space around them and its place in the file, each told apart by a code,
/// and the entries of a table in order.
pub ghost struct ItemLayout {
    pub name: Seq<char>,
    pub key: Option<int>,
    pub form: Option<int>,
    pub entries: Seq<EntryLayout>,
}

/// How a document is written: its items in order, and what stands before and behind them all,
/// told apart by a code.
pub ghost struct Layout {
    pub items: Seq<ItemLayout>,
    pub frame: int,
}

/// What a TOML text holds, and how it is written.
pub ghost struct TomlView {
    pub items: Map<Seq<char>, TomlItem>,
    pub layout: Layout,
}

/// The items of a document by their keys.
pub uninterp spec fn document_items(doc: toml_edit::DocumentMut) -> Map<Seq<char>, TomlItem>;

/// How a document is written. A key that the document has a place for, but no item yet, is
/// listed too.
pub uninterp spec fn document_layout(doc: toml_edit::DocumentMut) -> Layout;

/// The text of a document with these items and this layout.
pub uninterp spec fn toml_text(items: Map<Seq<char>, TomlItem>, layout: Layout) -> Seq<char>;

/// What a TOML text holds, or what is wrong with it.
pub uninterp spec fn parsed_toml(t: Seq<char>) -> Result<TomlView, Seq<char>>;

/// What kind of item stands under a key.
#[derive(Clone, Copy, Debug, PartialEq, Eq, Structural)]
pub enum ItemKind {
    Absent,
    Table,
    Inline,
    Other,
}

pub open spec fn item_kind(items: Map<Seq<char>, TomlItem>, key: Seq<char>) -> ItemKind {
    if !items.contains_key(key) {
        ItemKind::Absent
    } else {
        match items[key] {
            TomlItem::Table(_) => ItemKind::Table,
            TomlItem::Inline(_) => ItemKind::Inline,
            TomlItem::Other(_) => ItemKind::Other,
        }
    }
}

/// Whether a table, of either form, stands under a key.
pub open spec fn has_table(items: Map<Seq<char>, TomlItem>, key: Seq<char>) -> bool {
    items.contains_key(key) && !(items[key] is Other)
}

/// `items` with a text set in a table.
pub open spec fn with_text(
    items: Map<Seq<char>, TomlItem>,
    table: Seq<char>,
    key: Seq<char>,
    value: Seq<char>,
) -> Map<Seq<char>, TomlItem> {
    match items[table] {
        TomlItem::Table(m) => items.insert(
            table,
            TomlItem::Table(m.insert(key, TomlValue::Text(value))),
        ),
        TomlItem::Inline(m) => items.insert(
            table,
            TomlItem::Inline(m.insert(key, TomlValue::Text(value))),
        ),
        TomlItem::Other(_) => items,
    }
}

/// `items` without a key of a table. Tables in braces keep it, as does what is no table.
pub open spec fn without_key(
    items: Map<Seq<char>, TomlItem>,
    table: Seq<char>,
    key: Seq<char>,
) -> Map<Seq<char>, TomlItem> {
    match items[table] {
        TomlItem::Table(m) => items.insert(table, TomlItem::Table(m.remove(key))),
        _ => items,
    }
}

/// `items` with a table under a key where nothing stood.
pub open spec fn with_table(
    items: Map<Seq<char>, TomlItem>,
    key: Seq<char>,
) -> Map<Seq<char>, TomlItem> {
    if items.contains_key(key) {
        items
    } else {
        items.insert(key, TomlItem::Table(Map::empty()))
    }
}

// ---- Layouts ----

pub open spec fn has_entry(entries: Seq<EntryLayout>, name: Seq<char>) -> bool {
    exists|i: int| 0 <= i < entries.len() && (#[trigger] entries[i]).name == name
}

pub open spec fn has_item(items: Seq<ItemLayout>, name: Seq<char>) -> bool {
    exists|i: int| 0 <= i < items.len() && (#[trigger] items[i]).name == name
}

/// The entries once a plain value is set under a key: one that is there keeps its place and
/// what stands around its key, a new one comes last.
pub open spec fn entries_with(entries: Seq<EntryLayout>, name: Seq<char>) -> Seq<EntryLayout> {
    if has_entry(entries, name) {
        entries.map_values(
            |e: EntryLayout|
                if e.name == name {
                    EntryLayout { value: None, ..e }
                } else {
                    e
                },
        )
    } else {
        entries.push(EntryLayout { name, key: None, value: None })
    }
}

/// The entries without some keys; the others keep their order.
pub open spec fn kept(entries: Seq<EntryLayout>, gone: Set<Seq<char>>) -> Seq<EntryLayout>
    decreases entries.len(),
{
    if entries.len() == 0 {
        Seq::empty()
    } else {
        let before = kept(entries.drop_last(), gone);
        if gone.contains(entries.last().name) {
            before
        } else {
            before.push(entries.last())
        }
    }
}

/// `layout` once a plain value is set in a table.
pub open spec fn layout_with_entry(layout: Layout, table: Seq<char>, key: Seq<char>) -> Layout {
    Layout {
        items: layout.items.map_values(
            |i: ItemLayout|
                if i.name == table {
                    ItemLayout { entries: entries_with(i.entries, key), ..i }
                } else {
                    i
                },
        ),
        ..layout
    }
}

/// `layout` once a key is taken out of a table.
pub open spec fn layout_without_entry(layout: Layout, table: Seq<char>, key: Seq<char>) -> Layout {
    Layout {
        items: layout.items.map_values(
            |i: ItemLayout|
                if i.name == table {
                    ItemLayout { entries: kept(i.entries, set![key]), ..i }
                } else {
                    i
                },
        ),
        ..layout
    }
}

/// `layout` once an empty table is put under a key.
pub open spec fn layout_with_item(layout: Layout, key: Seq<char>) -> Layout {
    Layout {
        items: if has_item(layout.items, key) {
            layout.items.map_values(
                |i: ItemLayout|
                    if i.name == key {
                        ItemLayout { form: None, entries: Seq::empty(), ..i }
                    } else {
                        i
                    },
            )
        } else {
            layout.items.push(
                ItemLayout { name: key, key: None, form: None, entries: Seq::empty() },
            )
        },
        ..layout
    }
}

/// `str::parse` into a `toml_edit::DocumentMut`: the items and the layout of the document, or
/// the text of the error, are named [`parsed_toml`].
#[verifier::external_body]
fn parse_document(text: &str) -> (r: Result<toml_edit::DocumentMut, String>)
    ensures
        r matches Ok(d) ==> (parsed_toml(text@) matches Ok(v) && v.items == document_items(d)
            && v.layout == document_layout(d)),
        r matches Err(e) ==> (parsed_toml(text@) matches Err(why) && why == e@),
{
    match text.parse() {
        Ok(doc) => Ok(doc),
        Err(e) => Err(toml_edit::TomlError::to_string(&e)),
    }
}

/// `toml_edit::Table::get` on the document: what kind of item stands under a key.
#[verifier::external_body]
fn kind_of_item(doc: &toml_edit::DocumentMut, key: &str) -> (r: ItemKind)
    ensures
        r == item_kind(document_items(*doc), key@),
{
    match doc.get(key) {
        None => ItemKind::Absent,
        Some(toml_edit::Item::Table(_)) => ItemKind::Table,
        Some(toml_edit::Item::Value(toml_edit::Value::InlineTable(_))) => ItemKind::Inline,
        Some(_) => ItemKind::Other,
    }
}

/// Assigning an empty `toml_edit::Table` under a key of the document. A key that has a place
/// keeps it, a new one comes last.
#[verifier::external_body]
fn put_table(doc: &mut toml_edit::DocumentMut, key: &str)
    ensures
        document_items(*final(doc)) == document_items(*old(doc)).insert(
            key@,
            TomlItem::Table(Map::empty()),
        ),
        document_layout(*final(doc)) == layout_with_item(document_layout(*old(doc)), key@),
{
    doc[key] = toml_edit::Item::Table(toml_edit::Table::new());
}

/// Assigning `toml_edit::value` of a text under a key of a table of the document, which
/// must be there: indexing anything but a table panics. A key that is there keeps its place and
/// what stands around it, a new one comes last; the value is written plainly.
#[verifier::external_body]
fn put_text(doc: &mut toml_edit::DocumentMut, table: &str, key: &str, value: &str)
    requires
        has_table(document_items(*old(doc)), table@),
    ensures
        document_items(*final(doc)) == with_text(document_items(*old(doc)), table@, key@, value@),
        document_layout(*final(doc)) == layout_with_entry(
            document_layout(*old(doc)),
            table@,
            key@,
        ),
{
    doc[table][key] = toml_edit::value(value);
}

/// `toml_edit::Item::as_table_mut` and `toml_edit::Table::remove`: a key leaves a table that
/// is not written in braces, and its other keys keep their order; any other item stays as it
/// is.
#[verifier::external_body]
fn drop_key(doc: &mut toml_edit::DocumentMut, table: &str, key: &str)
    requires
        document_items(*old(doc)).contains_key(table@),
    ensures
        document_items(*final(doc)) == without_key(document_items(*old(doc)), table@, key@),
        document_layout(*final(doc)) == if document_items(*old(doc))[table@] is Table {
            layout_without_entry(document_layout(*old(doc)), table@, key@)
        } else {
            document_layout(*old(doc))
        },
{
    if let Some(t) = doc[table].as_table_mut() {
        t.remove(key);
    }
}

/// `toml_edit::DocumentMut` as text, named [`toml_text`]: the items and the layout are all that
/// a document holds.
#[verifier::external_body]
fn text_of_document(doc: &toml_edit::DocumentMut) -> (r: String)
    ensures
        r@ == toml_text(document_items(*doc), document_layout(*doc)),
{
    doc.to_string()
}

// ---- Editing ----

/// `items` with an optional text set in a table, or its key taken away.
pub open spec fn with_optional(
    items: Map<Seq<char>, TomlItem>,
    table: Seq<char>,
    key: Seq<char>,
    value: Option<Seq<char>>,
) -> Map<Seq<char>, TomlItem> {
    match value {
        Some(t) => with_text(items, table, key, t),
        None => without_key(items, table, key),
    }
}

pub open spec fn with_llm(items: Map<Seq<char>, TomlItem>, c: Config) -> Map<Seq<char>, TomlItem> {
    let a = with_table(items, "llm"@);
    let b = with_text(a, "llm"@, "provider"@, c.llm.provider@);
    let d = with_text(b, "llm"@, "model"@, c.llm.model@);
    let e = with_optional(d, "llm"@, "api_key"@, chars::opt_text(c.llm.api_key));
    with_optional(e, "llm"@, "base_url"@, chars::opt_text(c.llm.base_url))
}

pub open spec fn with_server(
    items: Map<Seq<char>, TomlItem>,
    c: Config,
) -> Map<Seq<char>, TomlItem> {
    let a = without_key(with_table(items, "server"@), "server"@, "port"@);
    let b = with_text(a, "server"@, "http_bind_addr"@, c.server.http_bind_addr@);
    let d = with_text(b, "server"@, "grpc_bind_addr"@, c.server.grpc_bind_addr@);
    let e = with_text(d, "server"@, "public_addr"@, c.server.public_addr@);
    let f = with_text(e, "server"@, "system_prompt"@, c.server.system_prompt@);
    with_optional(f, "server"@, "display_name"@, chars::opt_text(c.server.display_name))
}

pub open spec fn with_storage(
    items: Map<Seq<char>, TomlItem>,
    c: Config,
) -> Map<Seq<char>, TomlItem> {
    let a = with_table(items, "storage"@);
    let b = with_text(a, "storage"@, "media_dir"@, c.storage.media_dir@);
    with_text(b, "storage"@, "db_path"@, c.storage.db_path@)
}

pub open spec fn with_weather(
    items: Map<Seq<char>, TomlItem>,
    c: Config,
) -> Map<Seq<char>, TomlItem> {
    with_optional(
        with_table(items, "weather"@),
        "weather"@,
        "pirate_weather_api_key"@,
        chars::opt_text(c.weather.pirate_weather_api_key),
    )
}

/// The items of the file once the settings are written into it.
pub open spec fn with_settings(
    items: Map<Seq<char>, TomlItem>,
    c: Config,
) -> Map<Seq<char>, TomlItem> {
    with_weather(with_storage(with_server(with_llm(items, c), c), c), c)
}

/// Whether a key can be taken out of what stands under a name, or of the table that is put
/// there.
pub open spec fn lets_go(items: Map<Seq<char>, TomlItem>, table: Seq<char>) -> bool {
    item_kind(items, table) == ItemKind::Table || item_kind(items, table) == ItemKind::Absent
}

/// `layout` with a table under a key where nothing stood.
pub open spec fn layout_with_table(
    items: Map<Seq<char>, TomlItem>,
    layout: Layout,
    key: Seq<char>,
) -> Layout {
    if items.contains_key(key) {
        layout
    } else {
        layout_with_item(layout, key)
    }
}

/// `layout` once an optional text is set in a table, or its key taken away.
pub open spec fn layout_with_optional(
    layout: Layout,
    lets_go: bool,
    table: Seq<char>,
    key: Seq<char>,
    is_set: bool,
) -> Layout {
    if is_set {
        layout_with_entry(layout, table, key)
    } else if lets_go {
        layout_without_entry(layout, table, key)
    } else {
        layout
    }
}

pub open spec fn layout_with_llm(
    items: Map<Seq<char>, TomlItem>,
    layout: Layout,
    c: Config,
) -> Layout {
    let free = lets_go(items, "llm"@);
    let a = layout_with_table(items, layout, "llm"@);
    let b = layout_with_entry(a, "llm"@, "provider"@);
    let d = layout_with_entry(b, "llm"@, "model"@);
    let e = layout_with_optional(d, free, "llm"@, "api_key"@, c.llm.api_key is Some);
    layout_with_optional(e, free, "llm"@, "base_url"@, c.llm.base_url is Some)
}

pub open spec fn layout_with_server(
    items: Map<Seq<char>, TomlItem>,
    layout: Layout,
    c: Config,
) -> Layout {
    let free = lets_go(items, "server"@);
    let a = layout_with_table(items, layout, "server"@);
    let b = layout_with_optional(a, free, "server"@, "port"@, false);
    let d = layout_with_entry(b, "server"@, "http_bind_addr"@);
    let e = layout_with_entry(d, "server"@, "grpc_bind_addr"@);
    let f = layout_with_entry(e, "server"@, "public_addr"@);
    let g = layout_with_entry(f, "server"@, "system_prompt"@);
    layout_with_optional(g, free, "server"@, "display_name"@, c.server.display_name is Some)
}

pub open spec fn layout_with_storage(
    items: Map<Seq<char>, TomlItem>,
    layout: Layout,
) -> Layout {
    let a = layout_with_table(items, layout, "storage"@);
    let b = layout_with_entry(a, "storage"@, "media_dir"@);
    layout_with_entry(b, "storage"@, "db_path"@)
}

pub open spec fn layout_with_weather(
    items: Map<Seq<char>, TomlItem>,
    layout: Layout,
    c: Config,
) -> Layout {
    layout_with_optional(
        layout_with_table(items, layout, "weather"@),
        lets_go(items, "weather"@),
        "weather"@,
        "pirate_weather_api_key"@,
        c.weather.pirate_weather_api_key is Some,
    )
}

/// The layout of the file once the settings are written into it.
pub open spec fn layout_with_settings(
    items: Map<Seq<char>, TomlItem>,
    layout: Layout,
    c: Config,
) -> Layout {
    let a = layout_with_llm(items, layout, c);
    let b = layout_with_server(items, a, c);
    let d = layout_with_storage(items, b);
    layout_with_weather(items, d, c)
}

/// Whether nothing but a table stands where a setting goes.
pub open spec fn takes_settings(items: Map<Seq<char>, TomlItem>, c: Config) -> bool {
    &&& item_kind(items, "llm"@) != ItemKind::Other
    &&& item_kind(items, "server"@) != ItemKind::Other
    &&& item_kind(items, "storage"@) != ItemKind::Other
    &&& c.weather.pirate_weather_api_key is Some ==> item_kind(items, "weather"@)
        != ItemKind::Other
}

fn ensure_table(doc: &mut toml_edit::DocumentMut, key: &str)
    ensures
        document_items(*final(doc)) == with_table(document_items(*old(doc)), key@),
        document_layout(*final(doc)) == layout_with_table(
            document_items(*old(doc)),
            document_layout(*old(doc)),
            key@,
        ),
{
    if kind_of_item(doc, key) == ItemKind::Absent {
        put_table(doc, key);
    }
}

fn put_optional(doc: &mut toml_edit::DocumentMut, table: &str, key: &str, value: &Option<String>)
    requires
        document_items(*old(doc)).contains_key(table@),
        *value is Some ==> has_table(document_items(*old(doc)), table@),
    ensures
        document_items(*final(doc)) == with_optional(
            document_items(*old(doc)),
            table@,
            key@,
            chars::opt_text(*value),
        ),
        document_layout(*final(doc)) == layout_with_optional(
            document_layout(*old(doc)),
            document_items(*old(doc))[table@] is Table,
            table@,
            key@,
            *value is Some,
        ),
{
    match value {
        Some(t) => put_text(doc, table, key, t),
        None => drop_key(doc, table, key),
    }
}

fn edit_llm(doc: &mut toml_edit::DocumentMut, config: &Config)
    requires
        item_kind(document_items(*old(doc)), "llm"@) != ItemKind::Other,
    ensures
        document_items(*final(doc)) == with_llm(document_items(*old(doc)), *config),
        document_layout(*final(doc)) == layout_with_llm(
            document_items(*old(doc)),
            document_layout(*old(doc)),
            *config,
        ),
{
    ensure_table(doc, "llm");
    put_text(doc, "llm", "provider", &config.llm.provider);
    put_text(doc, "llm", "model", &config.llm.model);
    put_optional(doc, "llm", "api_key", &config.llm.api_key);
    put_optional(doc, "llm", "base_url", &config.llm.base_url);
}

fn edit_server(doc: &mut toml_edit::DocumentMut, config: &Config)
    requires
        item_kind(document_items(*old(doc)), "server"@) != ItemKind::Other,
    ensures
        document_items(*final(doc)) == with_server(document_items(*old(doc)), *config),
        document_layout(*final(doc)) == layout_with_server(
            document_items(*old(doc)),
            document_layout(*old(doc)),
            *config,
        ),
{
    ensure_table(doc, "server");
    drop_key(doc, "server", "port");
    put_text(doc, "server", "http_bind_addr", &config.server.http_bind_addr);
    put_text(doc, "server", "grpc_bind_addr", &config.server.grpc_bind_addr);
    put_text(doc, "server", "public_addr", &config.server.public_addr);
    put_text(doc, "server", "system_prompt", &config.server.system_prompt);
    put_optional(doc, "server", "display_name", &config.server.display_name);
}

fn edit_storage(doc: &mut toml_edit::DocumentMut, config: &Config)
    requires
        item_kind(document_items(*old(doc)), "storage"@) != ItemKind::Other,
    ensures
        document_items(*final(doc)) == with_storage(document_items(*old(doc)), *config),
        document_layout(*final(doc)) == layout_with_storage(
            document_items(*old(doc)),
            document_layout(*old(doc)),
        ),
{
    ensure_table(doc, "storage");
    put_text(doc, "storage", "media_dir", &config.storage.media_dir);
    put_text(doc, "storage", "db_path", &config.storage.db_path);
}

fn edit_weather(doc: &mut toml_edit::DocumentMut, config: &Config)
    requires
        config.weather.pirate_weather_api_key is Some ==> item_kind(
            document_items(*old(doc)),
            "weather"@,
        ) != ItemKind::Other,
    ensures
        document_items(*final(doc)) == with_weather(document_items(*old(doc)), *config),
        document_layout(*final(doc)) == layout_with_weather(
            document_items(*old(doc)),
            document_layout(*old(doc)),
            *config,
        ),
{
    ensure_table(doc, "weather");
    put_optional(
        doc,
        "weather",
        "pirate_weather_api_key",
        &config.weather.pirate_weather_api_key,
    );
}

proof fn lemma_tables_are_distinct()
    ensures
        "llm"@ != "server"@,
        "llm"@ != "storage"@,
        "llm"@ != "weather"@,
        "server"@ != "storage"@,
        "server"@ != "weather"@,
        "storage"@ != "weather"@,
{
    reveal_strlit("llm");
    reveal_strlit("server");
    reveal_strlit("storage");
    reveal_strlit("weather");
    assert("server"@[0] == 's' && "server"@.len() == 6);
    assert("storage"@.len() == 7 && "storage"@[0] == 's');
    assert("weather"@[0] == 'w');
    assert("llm"@.len() == 3);
}

/// Writes the settings into a document.
pub fn edit_document(doc: &mut toml_edit::DocumentMut, config: &Config)
    requires
        takes_settings(document_items(*old(doc)), *config),
    ensures
        document_items(*final(doc)) == with_settings(document_items(*old(doc)), *config),
        document_layout(*final(doc)) == layout_with_settings(
            document_items(*old(doc)),
            document_layout(*old(doc)),
            *config,
        ),
{
    proof {
        lemma_tables_are_distinct();
    }
    edit_llm(doc, config);
    edit_server(doc, config);
    edit_storage(doc, config);
    edit_weather(doc, config);
}

/// The text of a configuration file that may not exist yet.
pub open spec fn file_text(existing: Option<String>) -> Seq<char> {
    match existing {
        Some(t) => t@,
        None => Seq::empty(),
    }
}

/// The configuration file with the settings written into it, or why it cannot be read.
/// `None` says that something else than a table stands where a setting goes.
///
/// The text is that of the items and the layout that the file then has. That it reads as these
/// again is not stated.
pub fn persist_config(existing: Option<String>, config: &Config) -> (r: Result<
    Option<String>,
    String,
>)
    ensures
        match parsed_toml(file_text(existing)) {
            Err(why) => r is Err && r->Err_0@ == why,
            Ok(file) => {
                &&& r is Ok
                &&& r->Ok_0 is Some <==> takes_settings(file.items, *config)
                &&& r->Ok_0 matches Some(text) ==> text@ == toml_text(
                    with_settings(file.items, *config),
                    layout_with_settings(file.items, file.layout, *config),
                )
            },
        },
{
    let text = match existing {
        Some(t) => t,
        None => String::new(),
    };
    match parse_document(&text) {
        Ok(d) => {
            let mut doc = d;
            if kind_of_item(&doc, "llm") == ItemKind::Other || kind_of_item(&doc, "server")
                == ItemKind::Other || kind_of_item(&doc, "storage") == ItemKind::Other
                || (config.weather.pirate_weather_api_key.is_some() && kind_of_item(&doc, "weather")
                == ItemKind::Other) {
                return Ok(None);
            }
            edit_document(&mut doc, config);
            Ok(Some(text_of_document(&doc)))
        },
        Err(e) => Err(e),
    }
}

// ---- Laws ----

/// What stands under a key of a table.
pub open spec fn entry(
    items: Map<Seq<char>, TomlItem>,
    table: Seq<char>,
    key: Seq<char>,
) -> Option<TomlValue> {
    if !items.contains_key(table) {
        None
    } else {
        match items[table] {
            TomlItem::Table(m) | TomlItem::Inline(m) => if m.contains_key(key) {
                Some(m[key])
            } else {
                None
            },
            TomlItem::Other(_) => None,
        }
    }
}

proof fn lemma_keys_are_distinct()
    ensures
        "provider"@ != "model"@,
        "provider"@ != "api_key"@,
        "provider"@ != "base_url"@,
        "model"@ != "api_key"@,
        "model"@ != "base_url"@,
        "api_key"@ != "base_url"@,
        "http_bind_addr"@ != "grpc_bind_addr"@,
        "http_bind_addr"@ != "public_addr"@,
        "http_bind_addr"@ != "system_prompt"@,
        "http_bind_addr"@ != "display_name"@,
        "grpc_bind_addr"@ != "public_addr"@,
        "grpc_bind_addr"@ != "system_prompt"@,
        "grpc_bind_addr"@ != "display_name"@,
        "public_addr"@ != "system_prompt"@,
        "public_addr"@ != "display_name"@,
        "system_prompt"@ != "display_name"@,
        "port"@ != "http_bind_addr"@,
        "port"@ != "grpc_bind_addr"@,
        "port"@ != "public_addr"@,
        "port"@ != "system_prompt"@,
        "port"@ != "display_name"@,
        "media_dir"@ != "db_path"@,
{
    reveal_strlit("provider");
    reveal_strlit("model");
    reveal_strlit("api_key");
    reveal_strlit("base_url");
    reveal_strlit("http_bind_addr");
    reveal_strlit("grpc_bind_addr");
    reveal_strlit("public_addr");
    reveal_strlit("system_prompt");
    reveal_strlit("display_name");
    reveal_strlit("port");
    reveal_strlit("media_dir");
    reveal_strlit("db_path");
    assert("provider"@.len() == 8 && "model"@.len() == 5 && "api_key"@.len() == 7
        && "base_url"@.len() == 8);
    assert("http_bind_addr"@.len() == 14 && "grpc_bind_addr"@.len() == 14
        && "public_addr"@.len() == 11 && "system_prompt"@.len() == 13 && "display_name"@.len()
        == 12 && "port"@.len() == 4);
    assert("media_dir"@.len() == 9 && "db_path"@.len() == 7);
    assert("provider"@[0] == 'p' && "base_url"@[0] == 'b');
    assert("http_bind_addr"@[0] == 'h' && "grpc_bind_addr"@[0] == 'g');
}

/// The text that stands for a setting.
pub open spec fn setting(t: Seq<char>) -> Option<TomlValue> {
    Some(TomlValue::Text(t))
}

/// The entry that stands for an optional setting.
pub open spec fn optional_setting(t: Option<Seq<char>>) -> Option<TomlValue> {
    match t {
        Some(t) => setting(t),
        None => None,
    }
}

/// Every setting stands in the written file as it is in the configuration, and the
/// obsolete port is gone. An absent setting has no entry, unless the file has its table in
/// braces: there an old entry stays.
pub proof fn law_settings_are_written(items: Map<Seq<char>, TomlItem>, c: Config)
    requires
        takes_settings(items, c),
    ensures
        entry(with_settings(items, c), "llm"@, "provider"@) == setting(c.llm.provider@),
        entry(with_settings(items, c), "llm"@, "model"@) == setting(c.llm.model@),
        c.llm.api_key is Some || item_kind(items, "llm"@) != ItemKind::Inline ==> entry(
            with_settings(items, c),
            "llm"@,
            "api_key"@,
        ) == optional_setting(chars::opt_text(c.llm.api_key)),
        c.llm.base_url is Some || item_kind(items, "llm"@) != ItemKind::Inline ==> entry(
            with_settings(items, c),
            "llm"@,
            "base_url"@,
        ) == optional_setting(chars::opt_text(c.llm.base_url)),
        entry(with_settings(items, c), "server"@, "http_bind_addr"@) == setting(
            c.server.http_bind_addr@,
        ),
        entry(with_settings(items, c), "server"@, "grpc_bind_addr"@) == setting(
            c.server.grpc_bind_addr@,
        ),
        entry(with_settings(items, c), "server"@, "public_addr"@) == setting(c.server.public_addr@),
        entry(with_settings(items, c), "server"@, "system_prompt"@) == setting(
            c.server.system_prompt@,
        ),
        c.server.display_name is Some || item_kind(items, "server"@) != ItemKind::Inline ==> entry(
            with_settings(items, c),
            "server"@,
            "display_name"@,
        ) == optional_setting(chars::opt_text(c.server.display_name)),
        item_kind(items, "server"@) != ItemKind::Inline ==> entry(
            with_settings(items, c),
            "server"@,
            "port"@,
        ) is None,
        entry(with_settings(items, c), "storage"@, "media_dir"@) == setting(c.storage.media_dir@),
        entry(with_settings(items, c), "storage"@, "db_path"@) == setting(c.storage.db_path@),
        c.weather.pirate_weather_api_key is Some || item_kind(items, "weather"@)
            != ItemKind::Inline ==> entry(
            with_settings(items, c),
            "weather"@,
            "pirate_weather_api_key"@,
        ) == optional_setting(chars::opt_text(c.weather.pirate_weather_api_key)),
{
    lemma_tables_are_distinct();
    lemma_keys_are_distinct();
    let a = with_llm(items, c);
    let b = with_server(a, c);
    let d = with_storage(b, c);
    let e = with_weather(d, c);
    assert(a.contains_key("llm"@) && item_kind(a, "llm"@) != ItemKind::Other);
    assert(e["llm"@] == a["llm"@]);
    assert(a.contains_key("server"@) == items.contains_key("server"@) && a["server"@]
        == items["server"@]);
    assert(e["server"@] == b["server"@]);
    assert(b.contains_key("storage"@) == items.contains_key("storage"@) && b["storage"@]
        == items["storage"@]);
    assert(e["storage"@] == d["storage"@]);
    assert(d.contains_key("weather"@) == items.contains_key("weather"@) && d["weather"@]
        == items["weather"@]);
}

/// Writing the settings leaves every other item of the file alone.
pub proof fn law_edit_keeps_other_items(items: Map<Seq<char>, TomlItem>, c: Config, key: Seq<char>)
    requires
        key != "llm"@,
        key != "server"@,
        key != "storage"@,
        key != "weather"@,
    ensures
        with_settings(items, c).contains_key(key) == items.contains_key(key),
        with_settings(items, c)[key] == items[key],
{
    let a = with_llm(items, c);
    assert(a.contains_key(key) == items.contains_key(key) && a[key] == items[key]);
    let b = with_server(a, c);
    assert(b.contains_key(key) == items.contains_key(key) && b[key] == items[key]);
    let d = with_storage(b, c);
    assert(d.contains_key(key) == items.contains_key(key) && d[key] == items[key]);
}

/// Whether a key of a table is one of the settings.
pub open spec fn is_setting(table: Seq<char>, key: Seq<char>) -> bool {
    ||| table == "llm"@ && (key == "provider"@ || key == "model"@ || key == "api_key"@ || key
        == "base_url"@)
    ||| table == "server"@ && (key == "http_bind_addr"@ || key == "grpc_bind_addr"@ || key
        == "public_addr"@ || key == "system_prompt"@ || key == "display_name"@)
    ||| table == "storage"@ && (key == "media_dir"@ || key == "db_path"@)
    ||| table == "weather"@ && key == "pirate_weather_api_key"@
}

/// Whether writing the settings takes a key out of a table: one of a setting that is absent, or
/// the obsolete port.
pub open spec fn is_taken_out(c: Config, table: Seq<char>, key: Seq<char>) -> bool {
    ||| table == "llm"@ && key == "api_key"@ && c.llm.api_key is None
    ||| table == "llm"@ && key == "base_url"@ && c.llm.base_url is None
    ||| table == "server"@ && key == "port"@
    ||| table == "server"@ && key == "display_name"@ && c.server.display_name is None
    ||| table == "weather"@ && key == "pirate_weather_api_key"@
        && c.weather.pirate_weather_api_key is None
}

/// The keys that writing the settings takes out of what stands under a name.
pub open spec fn taken_out(
    items: Map<Seq<char>, TomlItem>,
    c: Config,
    table: Seq<char>,
) -> Set<Seq<char>> {
    Set::new(|key: Seq<char>| lets_go(items, table) && is_taken_out(c, table, key))
}

/// What of the layout of a table's entries does not rest on the values of the settings: the
/// keys with all that stands around them, and how the other values are written.
pub open spec fn outline(table: Seq<char>, entries: Seq<EntryLayout>) -> Seq<EntryLayout> {
    entries.map_values(
        |e: EntryLayout|
            if is_setting(table, e.name) {
                EntryLayout { value: None, ..e }
            } else {
                e
            },
    )
}

proof fn lemma_kept_parts(a: Seq<EntryLayout>, b: Seq<EntryLayout>, gone: Set<Seq<char>>)
    ensures
        kept(a + b, gone) == kept(a, gone) + kept(b, gone),
    decreases b.len(),
{
    if b.len() == 0 {
        assert(a + b =~= a);
        assert(kept(a, gone) + kept(b, gone) =~= kept(a, gone));
    } else {
        lemma_kept_parts(a, b.drop_last(), gone);
        assert((a + b).drop_last() =~= a + b.drop_last());
        assert(kept(a + b, gone) =~= kept(a, gone) + kept(b, gone));
    }
}

proof fn lemma_kept_twice(e: Seq<EntryLayout>, g: Set<Seq<char>>, h: Set<Seq<char>>)
    ensures
        kept(kept(e, g), h) == kept(e, g.union(h)),
    decreases e.len(),
{
    if e.len() > 0 {
        let before = kept(e.drop_last(), g);
        lemma_kept_twice(e.drop_last(), g, h);
        if !g.contains(e.last().name) {
            assert(before.push(e.last()).drop_last() =~= before);
        }
    }
}

proof fn lemma_kept_all(e: Seq<EntryLayout>)
    ensures
        kept(e, Set::<Seq<char>>::empty()) == e,
    decreases e.len(),
{
    if e.len() > 0 {
        lemma_kept_all(e.drop_last());
        assert(e.drop_last().push(e.last()) =~= e);
    } else {
        assert(e =~= Seq::<EntryLayout>::empty());
    }
}

proof fn lemma_outline_kept(table: Seq<char>, e: Seq<EntryLayout>, g: Set<Seq<char>>)
    ensures
        outline(table, kept(e, g)) == kept(outline(table, e), g),
    decreases e.len(),
{
    if e.len() > 0 {
        lemma_outline_kept(table, e.drop_last(), g);
        assert(outline(table, e).drop_last() =~= outline(table, e.drop_last()));
        assert(outline(table, kept(e, g)) =~= kept(outline(table, e), g));
    } else {
        assert(outline(table, kept(e, g)) =~= kept(outline(table, e), g));
    }
}

/// Whether the entries of a table start with those that it had, but for some keys, laid out as
/// they were.
pub open spec fn starts_as(
    table: Seq<char>,
    before: Seq<EntryLayout>,
    gone: Set<Seq<char>>,
    after: Seq<EntryLayout>,
) -> bool {
    let old_lines = outline(table, kept(before, gone));
    let new_lines = outline(table, after);
    &&& old_lines.len() <= new_lines.len()
    &&& new_lines.take(old_lines.len() as int) == old_lines
}

/// Setting a value keeps what the entries start as.
proof fn lemma_setting_keeps_start(
    table: Seq<char>,
    before: Seq<EntryLayout>,
    gone: Set<Seq<char>>,
    cur: Seq<EntryLayout>,
    name: Seq<char>,
)
    requires
        starts_as(table, before, gone, cur),
        is_setting(table, name),
    ensures
        starts_as(table, before, gone, entries_with(cur, name)),
{
    let next = entries_with(cur, name);
    let n = outline(table, kept(before, gone)).len() as int;
    if has_entry(cur, name) {
        assert(outline(table, next) =~= outline(table, cur));
    } else {
        assert(outline(table, next).take(n) =~= outline(table, cur).take(n));
    }
}

/// Taking a key out keeps what the entries start as, but for that key.
proof fn lemma_dropping_keeps_start(
    table: Seq<char>,
    before: Seq<EntryLayout>,
    gone: Set<Seq<char>>,
    cur: Seq<EntryLayout>,
    more: Set<Seq<char>>,
)
    requires
        starts_as(table, before, gone, cur),
    ensures
        starts_as(table, before, gone.union(more), kept(cur, more)),
{
    let old_lines = outline(table, kept(before, gone));
    let new_lines = outline(table, cur);
    let n = old_lines.len() as int;
    let rest = new_lines.skip(n);
    assert(new_lines =~= old_lines + rest);
    lemma_kept_parts(old_lines, rest, more);
    lemma_outline_kept(table, cur, more);
    lemma_outline_kept(table, kept(before, gone), more);
    lemma_kept_twice(before, gone, more);
    let first = kept(old_lines, more);
    assert(outline(table, kept(cur, more)).take(first.len() as int) =~= first);
}

/// What an optional setting that is absent takes out of a table.
spec fn gone_for(free: bool, key: Seq<char>, is_set: bool) -> Set<Seq<char>> {
    if !is_set && free {
        set![key]
    } else {
        Set::empty()
    }
}

spec fn entries_with_optional(
    entries: Seq<EntryLayout>,
    free: bool,
    key: Seq<char>,
    is_set: bool,
) -> Seq<EntryLayout> {
    if is_set {
        entries_with(entries, key)
    } else if free {
        kept(entries, set![key])
    } else {
        entries
    }
}

proof fn lemma_optional_keeps_start(
    table: Seq<char>,
    before: Seq<EntryLayout>,
    gone: Set<Seq<char>>,
    cur: Seq<EntryLayout>,
    free: bool,
    key: Seq<char>,
    is_set: bool,
)
    requires
        starts_as(table, before, gone, cur),
        is_set ==> is_setting(table, key),
    ensures
        starts_as(
            table,
            before,
            gone.union(gone_for(free, key, is_set)),
            entries_with_optional(cur, free, key, is_set),
        ),
{
    if is_set {
        lemma_setting_keeps_start(table, before, gone, cur, key);
        assert(gone.union(Set::<Seq<char>>::empty()) =~= gone);
    } else if free {
        lemma_dropping_keeps_start(table, before, gone, cur, set![key]);
    } else {
        assert(gone.union(Set::<Seq<char>>::empty()) =~= gone);
    }
}

proof fn lemma_starts_as_itself(table: Seq<char>, e: Seq<EntryLayout>)
    ensures
        starts_as(table, e, Set::<Seq<char>>::empty(), e),
{
    lemma_kept_all(e);
    let lines = outline(table, e);
    assert(lines.take(lines.len() as int) =~= lines);
}

proof fn lemma_llm_entries(items: Map<Seq<char>, TomlItem>, c: Config, e: Seq<EntryLayout>)
    ensures
        ({
            let free = lets_go(items, "llm"@);
            let a = entries_with(entries_with(e, "provider"@), "model"@);
            let b = entries_with_optional(a, free, "api_key"@, c.llm.api_key is Some);
            let d = entries_with_optional(b, free, "base_url"@, c.llm.base_url is Some);
            starts_as("llm"@, e, taken_out(items, c, "llm"@), d)
        }),
{
    lemma_tables_are_distinct();
    let t = "llm"@;
    let free = lets_go(items, t);
    let none = Set::<Seq<char>>::empty();
    lemma_starts_as_itself(t, e);
    let x = entries_with(e, "provider"@);
    lemma_setting_keeps_start(t, e, none, e, "provider"@);
    let a = entries_with(x, "model"@);
    lemma_setting_keeps_start(t, e, none, x, "model"@);
    let ga = none.union(gone_for(free, "api_key"@, c.llm.api_key is Some));
    let b = entries_with_optional(a, free, "api_key"@, c.llm.api_key is Some);
    lemma_optional_keeps_start(t, e, none, a, free, "api_key"@, c.llm.api_key is Some);
    lemma_optional_keeps_start(t, e, ga, b, free, "base_url"@, c.llm.base_url is Some);
    assert(ga.union(gone_for(free, "base_url"@, c.llm.base_url is Some)) =~= taken_out(items, c, t));
}

proof fn lemma_server_entries(items: Map<Seq<char>, TomlItem>, c: Config, e: Seq<EntryLayout>)
    ensures
        ({
            let free = lets_go(items, "server"@);
            let a = entries_with_optional(e, free, "port"@, false);
            let b = entries_with(entries_with(a, "http_bind_addr"@), "grpc_bind_addr"@);
            let d = entries_with(entries_with(b, "public_addr"@), "system_prompt"@);
            let f = entries_with_optional(d, free, "display_name"@, c.server.display_name is Some);
            starts_as("server"@, e, taken_out(items, c, "server"@), f)
        }),
{
    lemma_tables_are_distinct();
    let t = "server"@;
    let free = lets_go(items, t);
    let none = Set::<Seq<char>>::empty();
    lemma_starts_as_itself(t, e);
    let g = none.union(gone_for(free, "port"@, false));
    let a = entries_with_optional(e, free, "port"@, false);
    lemma_optional_keeps_start(t, e, none, e, free, "port"@, false);
    let b1 = entries_with(a, "http_bind_addr"@);
    lemma_setting_keeps_start(t, e, g, a, "http_bind_addr"@);
    let b = entries_with(b1, "grpc_bind_addr"@);
    lemma_setting_keeps_start(t, e, g, b1, "grpc_bind_addr"@);
    let d1 = entries_with(b, "public_addr"@);
    lemma_setting_keeps_start(t, e, g, b, "public_addr"@);
    let d = entries_with(d1, "system_prompt"@);
    lemma_setting_keeps_start(t, e, g, d1, "system_prompt"@);
    lemma_optional_keeps_start(
        t,
        e,
        g,
        d,
        free,
        "display_name"@,
        c.server.display_name is Some,
    );
    assert(g.union(gone_for(free, "display_name"@, c.server.display_name is Some)) =~= taken_out(
        items,
        c,
        t,
    ));
}

proof fn lemma_storage_entries(items: Map<Seq<char>, TomlItem>, c: Config, e: Seq<EntryLayout>)
    ensures
        starts_as(
            "storage"@,
            e,
            taken_out(items, c, "storage"@),
            entries_with(entries_with(e, "media_dir"@), "db_path"@),
        ),
{
    lemma_tables_are_distinct();
    let t = "storage"@;
    let none = Set::<Seq<char>>::empty();
    lemma_starts_as_itself(t, e);
    let a = entries_with(e, "media_dir"@);
    lemma_setting_keeps_start(t, e, none, e, "media_dir"@);
    lemma_setting_keeps_start(t, e, none, a, "db_path"@);
    assert(none =~= taken_out(items, c, t));
}

proof fn lemma_weather_entries(items: Map<Seq<char>, TomlItem>, c: Config, e: Seq<EntryLayout>)
    ensures
        starts_as(
            "weather"@,
            e,
            taken_out(items, c, "weather"@),
            entries_with_optional(
                e,
                lets_go(items, "weather"@),
                "pirate_weather_api_key"@,
                c.weather.pirate_weather_api_key is Some,
            ),
        ),
{
    lemma_tables_are_distinct();
    let t = "weather"@;
    let free = lets_go(items, t);
    let none = Set::<Seq<char>>::empty();
    let key = "pirate_weather_api_key"@;
    let is_set = c.weather.pirate_weather_api_key is Some;
    lemma_starts_as_itself(t, e);
    lemma_optional_keeps_start(t, e, none, e, free, key, is_set);
    assert(none.union(gone_for(free, key, is_set)) =~= taken_out(items, c, t));
}

/// What editing one table does to the layout of an item: nothing, if it is another one.
proof fn lemma_other_items_stay(
    items: Map<Seq<char>, TomlItem>,
    layout: Layout,
    c: Config,
    i: int,
)
    requires
        0 <= i < layout.items.len(),
    ensures
        ({
            let a = layout_with_llm(items, layout, c);
            &&& i < a.items.len()
            &&& layout.items[i].name != "llm"@ ==> a.items[i] == layout.items[i]
        }),
        ({
            let a = layout_with_server(items, layout, c);
            &&& i < a.items.len()
            &&& layout.items[i].name != "server"@ ==> a.items[i] == layout.items[i]
        }),
        ({
            let a = layout_with_storage(items, layout);
            &&& i < a.items.len()
            &&& layout.items[i].name != "storage"@ ==> a.items[i] == layout.items[i]
        }),
        ({
            let a = layout_with_weather(items, layout, c);
            &&& i < a.items.len()
            &&& layout.items[i].name != "weather"@ ==> a.items[i] == layout.items[i]
        }),
{
}

/// Writing the settings keeps the layout of the file. Its items stay in order and keep the way
/// their keys are written, and new ones come behind them; an item that is there keeps its header
/// or braces, with the comments around them. The entries of a table of ours stay in order, each
/// with the comments around its key, but for the keys that are taken out, and new ones come
/// behind them. Only the values of the settings are written anew. All other items are laid out
/// as they were.
pub proof fn law_layout_is_kept(
    items: Map<Seq<char>, TomlItem>,
    layout: Layout,
    c: Config,
    i: int,
)
    requires
        0 <= i < layout.items.len(),
    ensures
        ({
            let after = layout_with_settings(items, layout, c);
            let was = layout.items[i];
            let next = after.items[i];
            &&& after.frame == layout.frame
            &&& i < after.items.len()
            &&& next.name == was.name
            &&& next.key == was.key
            &&& items.contains_key(was.name) ==> next.form == was.form && starts_as(
                was.name,
                was.entries,
                taken_out(items, c, was.name),
                next.entries,
            )
            &&& (was.name != "llm"@ && was.name != "server"@ && was.name != "storage"@ && was.name
                != "weather"@) ==> next == was
        }),
{
    lemma_tables_are_distinct();
    let was = layout.items[i];
    let a = layout_with_llm(items, layout, c);
    let b = layout_with_server(items, a, c);
    let d = layout_with_storage(items, b);
    let z = layout_with_weather(items, d, c);
    lemma_other_items_stay(items, layout, c, i);
    lemma_other_items_stay(items, a, c, i);
    lemma_other_items_stay(items, b, c, i);
    lemma_other_items_stay(items, d, c, i);
    if was.name == "llm"@ {
        lemma_llm_entries(items, c, was.entries);
    } else if was.name == "server"@ {
        lemma_server_entries(items, c, was.entries);
    } else if was.name == "storage"@ {
        lemma_storage_entries(items, c, was.entries);
    } else if was.name == "weather"@ {
        lemma_weather_entries(items, c, was.entries);
    } else {
        lemma_starts_as_itself(was.name, was.entries);
        assert(taken_out(items, c, was.name) =~= Set::<Seq<char>>::empty());
    }
}

/// A file that cannot be read is not written; one that has no place for the settings is not
/// either; any other is written with the settings, and with its layout kept.
pub proof fn law_only_readable_files_are_written(
    existing: Option<String>,
    c: Config,
    r: Result<Option<String>, String>,
)
    requires
        call_ensures(persist_config, (existing, &c), r),
    ensures
        ({
            let text = match existing {
                Some(t) => t@,
                None => Seq::empty(),
            };
            &&& r is Err <==> parsed_toml(text) is Err
            &&& parsed_toml(text) matches Ok(file) ==> (r matches Ok(Some(_)) <==> item_kind(
                file.items,
                "llm"@,
            ) != ItemKind::Other && item_kind(file.items, "server"@) != ItemKind::Other && item_kind(
                file.items,
                "storage"@,
            ) != ItemKind::Other && (c.weather.pirate_weather_api_key is None || item_kind(
                file.items,
                "weather"@,
            ) != ItemKind::Other))
            &&& parsed_toml(text) matches Ok(file) ==> (r matches Ok(Some(t)) ==> t@ == toml_text(
                with_settings(file.items, c),
                layout_with_settings(file.items, file.layout, c),
            ))
        }),
{
}

/// An item is of the kind that it is, and absent where there is none.
pub proof fn law_items_are_of_their_kind(
    items: Map<Seq<char>, TomlItem>,
    key: Seq<char>,
    m: Map<Seq<char>, TomlValue>,
    n: int,
)
    ensures
        !items.contains_key(key) ==> item_kind(items, key) == ItemKind::Absent,
        item_kind(items.insert(key, TomlItem::Table(m)), key) == ItemKind::Table,
        item_kind(items.insert(key, TomlItem::Inline(m)), key) == ItemKind::Inline,
        item_kind(items.insert(key, TomlItem::Other(n)), key) == ItemKind::Other,
        has_table(items, key) <==> item_kind(items, key) == ItemKind::Table || item_kind(items, key)
            == ItemKind::Inline,
{
}

} // verus!
