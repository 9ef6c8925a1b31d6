use vstd::prelude::*;

use crate::text::contains_string;

verus! {

/// A file of the link folder, by name and content.
pub struct LinkFile {
    pub name: String,
    pub content: String,
}

/// The link folder as one pass sees it: the names of the files it held when
/// the pass began, followed by those the pass created, and the files the pass
/// created, in order, with their contents. Writing `created` to disk in order
/// brings the folder to the state the pass decided on.
pub struct LinkFolder {
    pub names: Vec<String>,
    pub created: Vec<LinkFile>,
}

/// The model of a link folder: file names, and (name, content) of each file
/// created.
pub struct FolderView {
    pub names: Seq<Seq<char>>,
    pub created: Seq<(Seq<char>, Seq<char>)>,
}

impl View for LinkFolder {
    type V = FolderView;

    open spec fn view(&self) -> FolderView {
        FolderView {
            names: self.names@.map_values(|s: String| s@),
            created: self.created@.map_values(|f: LinkFile| (f.name@, f.content@)),
        }
    }
}

/// The name of the binding file for interface name `iface`.
pub open spec fn link_name_of(iface: Seq<char>) -> Seq<char> {
    "98-nmstate-"@ + iface + ".link"@
}

/// The content of the binding file that gives the name `iface` to the
/// interface with hardware address `mac`.
pub open spec fn link_content_of(mac: Seq<char>, iface: Seq<char>) -> Seq<char> {
    "# Generated by nmstate\n[Match]\nMACAddress="@ + mac + "\n\n[Link]\nName="@ + iface + "\n"@
}

/// The folder with file `name` of content `content` created.
pub open spec fn with_created(f: FolderView, name: Seq<char>, content: Seq<char>) -> FolderView {
    FolderView { names: f.names.push(name), created: f.created.push((name, content)) }
}

/// One binding step: create the binding file of `iface` unless a file of that
/// name is present. The flag says whether a file was created.
pub open spec fn persist_spec(f: FolderView, mac: Seq<char>, iface: Seq<char>) -> (FolderView, bool) {
    let name = link_name_of(iface);
    if f.names.contains(name) {
        (f, false)
    } else {
        (with_created(f, name, link_content_of(mac, iface)), true)
    }
}

/// Binding steps for each (mac, name) of `instrs` in order; the flag is the
/// disjunction of the steps' flags.
pub open spec fn persist_all(f: FolderView, instrs: Seq<(Seq<char>, Seq<char>)>) -> (FolderView, bool)
    decreases instrs.len(),
{
    if instrs.len() == 0 {
        (f, false)
    } else {
        let prev = persist_all(f, instrs.drop_last());
        let step = persist_spec(prev.0, instrs.last().0, instrs.last().1);
        (step.0, prev.1 || step.1)
    }
}

/// A binding file is never overwritten: binding the same name a second
/// time, whatever the hardware address, leaves the folder as the first
/// binding left it (the first content stays) and reports no change.
pub proof fn lemma_binding_never_overwritten(
    f: FolderView,
    mac1: Seq<char>,
    mac2: Seq<char>,
    iface: Seq<char>,
)
    ensures
        persist_spec(persist_spec(f, mac1, iface).0, mac2, iface) == (
            persist_spec(f, mac1, iface).0,
            false,
        ),
{
    let f1 = persist_spec(f, mac1, iface).0;
    let name = link_name_of(iface);
    if !f.names.contains(name) {
        assert(f1.names[f.names.len() as int] == name);
    }
    assert(f1.names.contains(name));
}

/// The name of the binding file for interface `iface_name`.
pub fn link_file_name(iface_name: &str) -> (r: String)
    ensures
        r@ == link_name_of(iface_name@),
{
    let r = String::from_str("98-nmstate-");
    let r = r.concat(iface_name);
    r.concat(".link")
}

/// The content of the binding file that names the interface with hardware
/// address `mac` `iface_name`.
pub fn link_file_content(mac: &str, iface_name: &str) -> (r: String)
    ensures
        r@ == link_content_of(mac@, iface_name@),
{
    let r = String::from_str("# Generated by nmstate\n[Match]\nMACAddress=");
    let r = r.concat(mac);
    let r = r.concat("\n\n[Link]\nName=");
    let r = r.concat(iface_name);
    r.concat("\n")
}

impl LinkFolder {
    /// The folder as found on disk, holding files named `names`.
    pub fn new(names: Vec<String>) -> (r: LinkFolder)
        ensures
            r@.names == names@.map_values(|s: String| s@),
            r@.created == Seq::<(Seq<char>, Seq<char>)>::empty(),
    {
        let r = LinkFolder { names, created: Vec::new() };
        assert(r@.created =~= Seq::<(Seq<char>, Seq<char>)>::empty());
        r
    }

    /// Whether the folder holds a file named `name`.
    pub fn has_file(&self, name: &String) -> (r: bool)
        ensures
            r == self@.names.contains(name@),
    {
        contains_string(&self.names, name)
    }

    /// Creates file `name` with content `content`.
    pub fn create(&mut self, name: String, content: String)
        ensures
            final(self)@ == with_created(old(self)@, name@, content@),
    {
        let ghost name_v = name@;
        let ghost content_v = content@;
        self.names.push(name.clone());
        self.created.push(LinkFile { name, content });
        assert(self@.names =~= old(self)@.names.push(name_v));
        assert(self@.created =~= old(self)@.created.push((name_v, content_v)));
    }
}

/// Ensures that a binding file gives the name `iface_name` to the interface
/// with hardware address `mac`: a file already present under the binding's
/// name is left as it is, whatever it holds. Returns whether a file was
/// created.
pub fn persist_iface_name_via_systemd_link(folder: &mut LinkFolder, mac: &str, iface_name: &str) -> (r: bool)
    ensures
        (final(folder)@, r) == persist_spec(old(folder)@, mac@, iface_name@),
{
    let file_name = link_file_name(iface_name);
    if folder.has_file(&file_name) {
        return false;
    }
    let content = link_file_content(mac, iface_name);
    folder.create(file_name, content);
    true
}

} // verus!
