//! One archive entry as the collectors see it: its path and its lazily read
//! content.
use crate::lazy_read::{ContentSource, Error, LazyRead};
use vstd::prelude::*;
use vstd::utf8::*;

verus! {

/// An archive entry: its path and its content, read on first request.
pub struct FileInfo<'a, T> {
    content: LazyRead<T>,
    name: &'a str,
}

/// What a collector may ask of an archive entry.
pub trait FileInfoInterface {
    fn name(&self) -> &str;

    fn content_string(&mut self) -> Result<&str, Error>;

    fn content_bytes(&mut self) -> Result<&[u8], Error>;
}

impl<'a, T> FileInfo<'a, T> {
    /// The entry's path.
    pub closed spec fn name_view(&self) -> Seq<char> {
        self.name@
    }

    /// The state of the entry's content.
    pub closed spec fn content_state(&self) -> LazyRead<T> {
        self.content
    }

    /// An entry whose content has not been read yet.
    pub fn new(name: &'a str, content: T) -> (r: Self)
        ensures
            r.name_view() == name@,
            r.content_state() == LazyRead::Orig(content),
    {
        FileInfo { name, content: LazyRead::new(content) }
    }

    /// The entry's path.
    pub fn name(&self) -> (r: &str)
        ensures
            r@ == self.name_view(),
    {
        self.name
    }

    /// The content as text; see `LazyRead::get_string`.
    pub fn content_string(&mut self) -> (r: Result<&str, Error>)
        where T: ContentSource
        ensures
            final(self).name_view() == old(self).name_view(),
            old(self).content_state().is_read() ==> final(self).content_state().content_bytes()
                == old(self).content_state().content_bytes(),
            old(self).content_state().is_read() ==> (r is Ok <==> valid_utf8(
                old(self).content_state().content_bytes(),
            )),
            old(self).content_state().is_read() && !valid_utf8(old(self).content_state().content_bytes())
                ==> (r matches Err(e) && e is UTF8),
            r is Err ==> !final(self).content_state().is_read() || !valid_utf8(
                final(self).content_state().content_bytes(),
            ),
            r matches Ok(s) ==> final(self).content_state().is_read() && encode_utf8(s@)
                == final(self).content_state().content_bytes(),
    {
        self.content.get_string()
    }

    /// The content as bytes; see `LazyRead::get_bytes`.
    pub fn content_bytes(&mut self) -> (r: Result<&[u8], Error>)
        where T: ContentSource
        ensures
            final(self).name_view() == old(self).name_view(),
            old(self).content_state().is_read() ==> final(self).content_state()
                == old(self).content_state(),
            r matches Ok(b) ==> final(self).content_state().is_read()
                && b@ == final(self).content_state().content_bytes(),
            r is Err ==> !old(self).content_state().is_read(),
    {
        self.content.get_bytes()
    }
}

impl<'a, T: ContentSource> FileInfoInterface for FileInfo<'a, T> {
    fn name(&self) -> &str {
        self.name
    }

    fn content_string(&mut self) -> Result<&str, Error> {
        self.content.get_string()
    }

    fn content_bytes(&mut self) -> Result<&[u8], Error> {
        self.content.get_bytes()
    }
}

} // verus!
