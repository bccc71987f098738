//! File types and the per-class codec choice.
//!
//! Every instance class that has a single-file body is served by one
//! middleware; plain containers have none and become directories.

use vstd::prelude::*;

use crate::dict::Dict;
use crate::text::str_eq;
use crate::value::Value;
use crate::value::Properties;
use crate::value::ValueView;
use crate::vfs::Vfs;
use crate::vfs::VfsEntry;
use crate::vfs::VfsEntryView;

verus! {

/// The kind of file that realizes an instance on disk.
#[derive(Clone, Copy, PartialEq, Eq, Structural, Debug)]
pub enum FileType {
    Project,
    InstanceData,
    ServerScript,
    ClientScript,
    ModuleScript,
    StringValue,
    LocalizationTable,
    JsonModule,
    TomlModule,
    RbxmModel,
    RbxmxModel,
}

/// The middleware serving instances of class `class`, or `None` for
/// classes that are plain containers with no single-file body.
pub open spec fn middleware_of_class(class: Seq<char>) -> Option<FileType> {
    if class == "Script"@ {
        Some(FileType::ServerScript)
    } else if class == "LocalScript"@ {
        Some(FileType::ClientScript)
    } else if class == "ModuleScript"@ {
        Some(FileType::ModuleScript)
    } else if class == "StringValue"@ {
        Some(FileType::StringValue)
    } else if class == "LocalizationTable"@ {
        Some(FileType::LocalizationTable)
    } else {
        None
    }
}

/// The property a file of type `ft` stores as its literal content, for
/// the types that have a single-file body.
pub open spec fn native_key(ft: FileType) -> Option<Seq<char>> {
    match ft {
        FileType::ServerScript => Some("Source"@),
        FileType::ClientScript => Some("Source"@),
        FileType::ModuleScript => Some("Source"@),
        FileType::StringValue => Some("Value"@),
        FileType::LocalizationTable => Some("Contents"@),
        _ => None,
    }
}

/// The middleware for `class`, as `middleware_of_class` describes.
pub fn from_class(class: &str) -> (r: Option<FileType>)
    ensures
        r == middleware_of_class(class@),
{
    if str_eq(class, "Script") {
        Some(FileType::ServerScript)
    } else if str_eq(class, "LocalScript") {
        Some(FileType::ClientScript)
    } else if str_eq(class, "ModuleScript") {
        Some(FileType::ModuleScript)
    } else if str_eq(class, "StringValue") {
        Some(FileType::StringValue)
    } else if str_eq(class, "LocalizationTable") {
        Some(FileType::LocalizationTable)
    } else {
        None
    }
}

/// The key whose value a file of type `ft` stores as literal content.
pub fn native_key_of(ft: FileType) -> (r: Option<&'static str>)
    ensures
        match r {
            Some(k) => native_key(ft) == Some(k@),
            None => native_key(ft) is None,
        },
{
    match ft {
        FileType::ServerScript => Some("Source"),
        FileType::ClientScript => Some("Source"),
        FileType::ModuleScript => Some("Source"),
        FileType::StringValue => Some("Value"),
        FileType::LocalizationTable => Some("Contents"),
        _ => None,
    }
}

/// Every middleware that `middleware_of_class` hands out stores a
/// single property as the file's literal content.
pub proof fn lemma_class_middleware_has_native_key(class: Seq<char>)
    ensures
        middleware_of_class(class) is Some ==> native_key(
            middleware_of_class(class)->0,
        ) is Some,
{
}

/// The instance class a file of type `ft` stands for when it is met on
/// disk; file types that carry no instance of their own have none.
pub open spec fn class_of(ft: FileType) -> Option<Seq<char>> {
    match ft {
        FileType::ServerScript => Some("Script"@),
        FileType::ClientScript => Some("LocalScript"@),
        FileType::ModuleScript => Some("ModuleScript"@),
        FileType::JsonModule => Some("ModuleScript"@),
        FileType::TomlModule => Some("ModuleScript"@),
        FileType::StringValue => Some("StringValue"@),
        FileType::LocalizationTable => Some("LocalizationTable"@),
        FileType::RbxmModel => Some("Model"@),
        FileType::RbxmxModel => Some("Model"@),
        _ => None,
    }
}

/// The instance class a file of type `ft` stands for.
pub fn class_of_file_type(ft: FileType) -> (r: Option<&'static str>)
    ensures
        match r {
            Some(c) => class_of(ft) == Some(c@),
            None => class_of(ft) is None,
        },
{
    match ft {
        FileType::ServerScript => Some("Script"),
        FileType::ClientScript => Some("LocalScript"),
        FileType::ModuleScript => Some("ModuleScript"),
        FileType::JsonModule => Some("ModuleScript"),
        FileType::TomlModule => Some("ModuleScript"),
        FileType::StringValue => Some("StringValue"),
        FileType::LocalizationTable => Some("LocalizationTable"),
        FileType::RbxmModel => Some("Model"),
        FileType::RbxmxModel => Some("Model"),
        _ => None,
    }
}

/// The text a file entry holds; empty for anything but a text file.
pub open spec fn entry_text(e: VfsEntryView) -> Seq<char> {
    match e {
        VfsEntryView::Text(t) => t,
        _ => Seq::empty(),
    }
}

/// The text a file with native key `key` stores for `props`: the value
/// of that key when it is text, empty otherwise.
pub open spec fn native_text(props: Map<Seq<char>, ValueView>, key: Seq<char>) -> Seq<char> {
    if props.contains_key(key) {
        match props[key] {
            ValueView::Text(t) => t,
            _ => Seq::empty(),
        }
    } else {
        Seq::empty()
    }
}

/// What is left of `props` once the native key has gone into the file:
/// everything else, or everything when the native value is not text.
pub open spec fn leftover_props(props: Map<Seq<char>, ValueView>, key: Seq<char>) -> Map<
    Seq<char>,
    ValueView,
> {
    if props.contains_key(key) && (props[key] is Text) {
        props.remove(key)
    } else {
        props
    }
}

/// Writes the properties expressible in the file type's native format
/// to the file at `path`, and hands back every property that has no
/// native encoding there.
pub fn write_props(ft: FileType, props: Properties, path: &str, vfs: &mut Vfs) -> (leftover:
    Properties)
    requires
        native_key(ft) is Some,
        props.wf(),
        old(vfs).wf(),
    ensures
        final(vfs).wf(),
        final(vfs)@ == old(vfs)@.insert(
            path@,
            VfsEntryView::Text(native_text(props@, native_key(ft)->0)),
        ),
        final(vfs).watched == old(vfs).watched,
        final(vfs).watch_enabled == old(vfs).watch_enabled,
        leftover.wf(),
        leftover@ == leftover_props(props@, native_key(ft)->0),
{
    let key = match native_key_of(ft) {
        Some(k) => k,
        None => "",
    };
    let mut props = props;
    let is_text = match props.get(key) {
        Some(v) => match v {
            Value::Text(_) => true,
            _ => false,
        },
        None => false,
    };
    if is_text {
        let text = match props.remove(key) {
            Some(v) => match v {
                Value::Text(t) => t,
                _ => String::new(),
            },
            None => String::new(),
        };
        vfs.write(path, VfsEntry::Text(text));
    } else {
        vfs.write(path, VfsEntry::Text(String::new()));
    }
    props
}

/// Reads the file at `path` back into the properties its native format
/// stores: its text under the file type's native key.
pub fn read_props(ft: FileType, path: &str, vfs: &Vfs) -> (r: Option<Properties>)
    requires
        native_key(ft) is Some,
        vfs.wf(),
    ensures
        match r {
            Some(p) => {
                &&& p.wf()
                &&& vfs@.contains_key(path@)
                &&& vfs@[path@] is Text
                &&& p@ == Map::<Seq<char>, ValueView>::empty().insert(
                    native_key(ft)->0,
                    ValueView::Text(entry_text(vfs@[path@])),
                )
            },
            None => vfs@.contains_key(path@) ==> !(vfs@[path@] is Text),
        },
{
    let key = match native_key_of(ft) {
        Some(k) => k,
        None => "",
    };
    match vfs.read(path) {
        Ok(text) => {
            let mut p: Properties = Dict::new();
            p.insert(key, Value::Text(text));
            Some(p)
        },
        Err(_) => None,
    }
}

/// Writes `props` as the sidecar data file at `data_path`, or clears a
/// stale one when `props` holds nothing; hands back the path written.
pub fn write_data(props: Properties, data_path: &str, vfs: &mut Vfs) -> (r: Option<String>)
    requires
        props.wf(),
        old(vfs).wf(),
    ensures
        final(vfs).wf(),
        final(vfs).watched == old(vfs).watched,
        final(vfs).watch_enabled == old(vfs).watch_enabled,
        match r {
            Some(p) => p@ == data_path@ && props@ != Map::<Seq<char>, ValueView>::empty()
                && final(vfs)@ == old(vfs)@.insert(
                data_path@,
                VfsEntryView::Data(props@),
            ),
            None => props@ == Map::<Seq<char>, ValueView>::empty() && (forall|
                k: Seq<char>,
            |
                #[trigger] final(vfs)@.contains_key(k) <==> old(vfs)@.contains_key(k)
                    && !crate::text::under(data_path@, k)) && (forall|k: Seq<char>|
                #[trigger] final(vfs)@.contains_key(k) ==> final(vfs)@[k] == old(vfs)@[k]),
        },
{
    if crate::value::props_is_empty(&props) {
        vfs.remove(data_path);
        None
    } else {
        vfs.write(data_path, VfsEntry::Data(props));
        Some(data_path.to_owned())
    }
}

/// The property split law: writing a property map through a middleware
/// and reading the file back together with the leftover properties
/// reconstructs the original map, whenever the native value is text.
pub proof fn lemma_property_split(props: Map<Seq<char>, ValueView>, key: Seq<char>)
    requires
        props.contains_key(key),
        props[key] is Text,
    ensures
        leftover_props(props, key).union_prefer_right(
            Map::<Seq<char>, ValueView>::empty().insert(
                key,
                ValueView::Text(native_text(props, key)),
            ),
        ) == props,
{
    assert(leftover_props(props, key).union_prefer_right(
        Map::<Seq<char>, ValueView>::empty().insert(
            key,
            ValueView::Text(native_text(props, key)),
        ),
    ) =~= props);
}

} // verus!
