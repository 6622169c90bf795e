use vstd::prelude::*;

use crate::apps::{err_of, App, AppOp};
use crate::buttons::Buttons;
use crate::caps::{FileStore, PixelSurface};
use crate::errors::AppError;

verus! {

/// Where the application's text line sits on the surface.
pub const TEXT_X: i32 = 5;

/// Where the application's text line sits on the surface.
pub const TEXT_Y: i32 = 40;

/// The text shown until (and unless) the file is found: "No filesystem".
pub open spec fn fallback_text() -> Seq<u8> {
    seq![78u8, 111u8, 32u8, 102u8, 105u8, 108u8, 101u8, 115u8, 121u8, 115u8, 116u8, 101u8, 109u8]
}

/// A primary application that shows one file's text. Every frame it looks
/// the file up through the store capability; while the file is missing — or
/// no store was brought up at all — it keeps showing its fallback text,
/// "No filesystem". Only `read_write` ever touches that text: `update` and
/// `draw` leave it alone, by contract.
pub struct FileTextApp {
    name: String,
    text: Vec<u8>,
    frame: u64,
    history: Ghost<Seq<AppOp>>,
}

impl FileTextApp {
    /// The operations invoked on this application so far.
    pub closed spec fn spec_history(self) -> Seq<AppOp> {
        self.history@
    }

    /// The name of the file the application looks up.
    pub closed spec fn spec_name(self) -> Seq<char> {
        self.name@
    }

    /// The text currently shown.
    pub closed spec fn spec_text(self) -> Seq<u8> {
        self.text@
    }

    /// How many `update` calls the application has seen: its own frame
    /// counter, not interpreted by the runtime.
    pub closed spec fn spec_frame(self) -> u64 {
        self.frame
    }

    /// A fresh application that will look up the named file, showing the
    /// fallback text until the file is found.
    pub fn new(name: String) -> (r: FileTextApp)
        ensures
            r.spec_history() == Seq::<AppOp>::empty(),
            r.spec_name() == name@,
            r.spec_text() == fallback_text(),
            r.spec_frame() == 0,
    {
        let mut text: Vec<u8> = Vec::new();
        text.push(78);
        text.push(111);
        text.push(32);
        text.push(102);
        text.push(105);
        text.push(108);
        text.push(101);
        text.push(115);
        text.push(121);
        text.push(115);
        text.push(116);
        text.push(101);
        text.push(109);
        proof {
            assert(text@ =~= fallback_text());
        }
        FileTextApp { name, text, frame: 0, history: Ghost(Seq::empty()) }
    }

    /// The text currently shown: the file's contents once it has been read,
    /// the fallback text before that.
    pub fn text(&self) -> (r: &Vec<u8>)
        ensures
            r@ == self.spec_text(),
    {
        &self.text
    }

    /// This application's own frame counter.
    pub fn frame(&self) -> (r: u64)
        ensures
            r == self.spec_frame(),
    {
        self.frame
    }

    /// Take one answer of the store as this frame's: contents found become
    /// the shown text, and an absent file — a normal outcome — leaves the
    /// text exactly as it was.
    pub fn apply_lookup(&mut self, found: Option<Vec<u8>>)
        ensures
            final(self).spec_text() == match found {
                Some(data) => data@,
                None => old(self).spec_text(),
            },
            final(self).spec_name() == old(self).spec_name(),
            final(self).spec_frame() == old(self).spec_frame(),
            final(self).spec_history() == old(self).spec_history(),
    {
        match found {
            Some(data) => {
                self.text = data;
            },
            None => {},
        }
    }

    /// Look the file up and take the store's answer as the text to show,
    /// through `apply_lookup`. A store that has no such file leaves the text
    /// exactly as it was — absence is a normal outcome, not a failure — as
    /// does a store error, which is propagated.
    pub fn look_up<Store: FileStore>(&mut self, store: &mut Store) -> (r: Result<(), AppError>)
        ensures
            final(self).spec_history() == old(self).spec_history(),
            final(self).spec_name() == old(self).spec_name(),
            final(self).spec_frame() == old(self).spec_frame(),
            !old(store).files().contains_key(old(self).spec_name()) ==> final(self).spec_text()
                == old(self).spec_text(),
            r is Err ==> final(self).spec_text() == old(self).spec_text(),
            final(self).spec_text() == old(self).spec_text() || (old(store).files().contains_key(
                old(self).spec_name(),
            ) && final(self).spec_text() == old(store).files()[old(self).spec_name()]),
    {
        match store.read_file(self.name.as_str()) {
            Ok(found) => {
                self.apply_lookup(found);
                Ok(())
            },
            Err(e) => Err(e),
        }
    }
}

impl App for FileTextApp {
    open spec fn calls(&self) -> Seq<AppOp> {
        self.spec_history()
    }

    /// Nothing to decode: `init` always succeeds and changes nothing but
    /// the history.
    fn init(&mut self) -> (r: Result<(), AppError>)
        ensures
            r is Ok,
            final(self).spec_text() == old(self).spec_text(),
            final(self).spec_name() == old(self).spec_name(),
            final(self).spec_frame() == old(self).spec_frame(),
    {
        self.history = Ghost(self.history@.push(AppOp::Init { err: None }));
        Ok(())
    }

    /// Count the frame, saturating; this application reacts to no input and
    /// never fails here, and the shown text is left alone.
    fn update(&mut self, buttons: Buttons) -> (r: Result<(), AppError>)
        ensures
            r is Ok,
            final(self).spec_text() == old(self).spec_text(),
            final(self).spec_name() == old(self).spec_name(),
            old(self).spec_frame() < u64::MAX ==> final(self).spec_frame() == old(
                self,
            ).spec_frame() + 1,
            old(self).spec_frame() == u64::MAX ==> final(self).spec_frame() == u64::MAX,
    {
        if self.frame < u64::MAX {
            self.frame = self.frame + 1;
        }
        self.history = Ghost(self.history@.push(AppOp::Update { err: None }));
        Ok(())
    }

    /// Show the current text, which drawing leaves untouched.
    fn draw<Surface: PixelSurface>(&mut self, surface: &mut Surface) -> (r: Result<(), AppError>)
        ensures
            final(self).spec_text() == old(self).spec_text(),
            final(self).spec_name() == old(self).spec_name(),
            final(self).spec_frame() == old(self).spec_frame(),
    {
        let r = surface.draw_text(TEXT_X, TEXT_Y, &self.text);
        self.history = Ghost(self.history@.push(AppOp::Draw { err: err_of(r) }));
        r
    }

    /// Look the file up, through `look_up`: contents found become the shown
    /// text; a missing file leaves it unchanged, and only a store failure,
    /// which is propagated, can make this frame's hook fail.
    fn read_write<Store: FileStore>(&mut self, store: &mut Store) -> (r: Result<(), AppError>)
        ensures
            final(self).spec_name() == old(self).spec_name(),
            final(self).spec_frame() == old(self).spec_frame(),
            !old(store).files().contains_key(old(self).spec_name()) ==> final(self).spec_text()
                == old(self).spec_text(),
            r is Err ==> final(self).spec_text() == old(self).spec_text(),
            final(self).spec_text() == old(self).spec_text() || (old(store).files().contains_key(
                old(self).spec_name(),
            ) && final(self).spec_text() == old(store).files()[old(self).spec_name()]),
    {
        let r = self.look_up(store);
        self.history = Ghost(self.history@.push(AppOp::ReadWrite { err: err_of(r) }));
        r
    }
}

} // verus!
