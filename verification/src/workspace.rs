//! The workspace: the decrypted working copy of one entry. It lives in
//! memory only and is bound to the entry's name; what is written to it
//! reaches the store when it is flushed.

use vstd::prelude::*;

verus! {

/// A workspace as a mathematical value.
pub struct Workspace {
    /// The store's root directory.
    pub root: Seq<char>,
    /// The name of the entry that the workspace is bound to.
    pub name: Seq<char>,
    /// The plaintext.
    pub content: Seq<u8>,
    /// Whether the plaintext may differ from the durable file.
    pub dirty: bool,
    /// The message for version control, if one was set.
    pub commit_msg: Option<Seq<char>>,
}

/// The decrypted working copy of one entry.
#[derive(Debug)]
pub struct PassFile {
    root: String,
    pass_name: String,
    content: Vec<u8>,
    maybe_modified: bool,
    commit_msg: Option<String>,
}

impl View for PassFile {
    type V = Workspace;

    closed spec fn view(&self) -> Workspace {
        Workspace {
            root: self.root@,
            name: self.pass_name@,
            content: self.content@,
            dirty: self.maybe_modified,
            commit_msg: self.commit_msg.deep_view(),
        }
    }
}

/// Overwrites the bytes with zeros and drops them, so that the plaintext
/// does not linger in memory that is handed back.
fn scrub(bytes: &mut Vec<u8>)
    ensures
        final(bytes)@ == Seq::<u8>::empty(),
{
    let mut i: usize = 0;
    while i < bytes.len()
        invariant
            i <= bytes.len(),
        decreases bytes.len() - i,
    {
        bytes.set(i, 0u8);
        i += 1;
    }
    bytes.clear();
}

impl PassFile {
    /// A workspace for `pass_name` that holds `content` and owes the store
    /// nothing.
    pub(crate) fn new(root: String, pass_name: String, content: Vec<u8>) -> (ws: PassFile)
        ensures
            ws@ == (Workspace {
                root: root@,
                name: pass_name@,
                content: content@,
                dirty: false,
                commit_msg: None,
            }),
    {
        PassFile { root, pass_name, content, maybe_modified: false, commit_msg: None }
    }

    /// A workspace for `pass_name` that is empty and dirty.
    pub(crate) fn fresh(root: String, pass_name: String) -> (ws: PassFile)
        ensures
            ws@ == (Workspace {
                root: root@,
                name: pass_name@,
                content: Seq::empty(),
                dirty: true,
                commit_msg: None,
            }),
    {
        PassFile { root, pass_name, content: Vec::new(), maybe_modified: true, commit_msg: None }
    }

    /// The workspace bound to `new_name` and dirty, and the name it had.
    pub(crate) fn rebind(self, new_name: String) -> (moved: (PassFile, String))
        ensures
            moved.0@ == (Workspace { name: new_name@, dirty: true, ..self@ }),
            moved.1@ == self@.name,
    {
        let PassFile { root, pass_name, content, maybe_modified: _, commit_msg } = self;
        (
            PassFile { root, pass_name: new_name, content, maybe_modified: true, commit_msg },
            pass_name,
        )
    }

    /// The workspace with nothing owed to the store.
    pub(crate) fn cleaned(self) -> (ws: PassFile)
        ensures
            ws@ == (Workspace { dirty: false, ..self@ }),
    {
        let mut ws = self;
        ws.maybe_modified = false;
        ws
    }

    /// Erases the plaintext.
    pub(crate) fn wipe(&mut self)
        ensures
            final(self)@ == (Workspace { content: Seq::empty(), ..old(self)@ }),
    {
        scrub(&mut self.content);
    }

    /// A copy of the plaintext.
    pub(crate) fn plaintext(&self) -> (bytes: Vec<u8>)
        ensures
            bytes@ == self@.content,
    {
        let bytes = self.content.clone();
        assert(bytes@ =~= self.content@);
        bytes
    }

    /// The message under which the next flush is committed, if one was set.
    pub fn commit_msg(&self) -> (msg: Option<String>)
        ensures
            msg.deep_view() == self@.commit_msg,
    {
        match &self.commit_msg {
            Some(m) => Some(m.clone()),
            None => None,
        }
    }

    /// The store's root directory.
    pub fn root(&self) -> (root: &str)
        ensures
            root@ == self@.root,
    {
        self.root.as_str()
    }

    /// The name of the entry that the workspace is bound to.
    pub fn pass_name(&self) -> (name: &str)
        ensures
            name@ == self@.name,
    {
        self.pass_name.as_str()
    }

    /// Whether the plaintext may differ from the durable file.
    pub fn is_modified(&self) -> (dirty: bool)
        ensures
            dirty == self@.dirty,
    {
        self.maybe_modified
    }

    /// The plaintext.
    pub fn content_reader(&self) -> (bytes: &Vec<u8>)
        ensures
            bytes@ == self@.content,
    {
        &self.content
    }

    /// Opens the plaintext for writing: what was there is dropped, the
    /// workspace is dirty from now on, and what the caller leaves in the
    /// sink is the new plaintext.
    pub fn content_writer(&mut self) -> (sink: &mut Vec<u8>)
        ensures
            sink@ == Seq::<u8>::empty(),
            final(self)@ == (Workspace { content: final(sink)@, dirty: true, ..old(self)@ }),
    {
        self.maybe_modified = true;
        scrub(&mut self.content);
        &mut self.content
    }

    /// Sets the message under which the next flush is committed.
    pub fn set_commit_msg(&mut self, msg: String)
        ensures
            final(self)@ == (Workspace { commit_msg: Some(msg@), ..old(self)@ }),
    {
        self.commit_msg = Some(msg);
    }
}

} // verus!
