//! A source that is read at most once: the first request pulls its content,
//! which is kept as text or bytes; a later request for the other form
//! converts the kept content instead of reading again.
use vstd::prelude::*;
use vstd::string::*;
use vstd::utf8::*;

verus! {

/// The error of a failed read.
#[verifier::external_type_specification]
#[verifier::external_body]
pub struct ExIoError(std::io::Error);

/// The error of bytes that are no UTF-8.
#[verifier::external_type_specification]
#[verifier::external_body]
pub struct ExUtf8Error(std::str::Utf8Error);

/// Why the content could not be had in the form asked for.
#[derive(Debug)]
pub enum Error {
    /// Reading the source failed.
    IO(std::io::Error),
    /// The content is not valid UTF-8.
    UTF8(std::str::Utf8Error),
}

/// The content of a source: not yet read, or kept as text or as bytes.
pub enum LazyRead<T> {
    Orig(T),
    String(String),
    Bytes(Vec<u8>),
}

/// Where the content of an entry comes from: a stream read to its end on
/// request.
pub trait ContentSource {
    /// Everything the source still holds.
    fn read_all(&mut self) -> Result<Vec<u8>, std::io::Error>;
}

/// Relies on `std::str::from_utf8`: the same bytes seen as text, where they
/// are valid UTF-8.
#[verifier::external_body]
fn utf8_text(b: &[u8]) -> (r: Result<&str, std::str::Utf8Error>)
    ensures
        r is Ok <==> valid_utf8(b@),
        r matches Ok(s) ==> s.spec_bytes() == b@,
{
    std::str::from_utf8(b)
}

impl<T> LazyRead<T> {
    /// The content is no longer held by the source.
    pub open spec fn is_read(&self) -> bool {
        !(self is Orig)
    }

    /// The bytes of the content, once read.
    pub open spec fn content_bytes(&self) -> Seq<u8> {
        match self {
            LazyRead::String(s) => encode_utf8(s@),
            LazyRead::Bytes(b) => b@,
            LazyRead::Orig(_) => Seq::empty(),
        }
    }

    /// A source whose content has not been read yet.
    pub fn new(input: T) -> (r: Self)
        ensures
            r == LazyRead::Orig(input),
    {
        LazyRead::Orig(input)
    }

    /// Takes in what reading the source gave: the bytes read are kept as the
    /// content; a failed read is the error and leaves everything as it was.
    pub fn keep_read(&mut self, read: Result<Vec<u8>, std::io::Error>) -> (r: Result<(), Error>)
        ensures
            read matches Ok(b) ==> r is Ok && *final(self) == LazyRead::<T>::Bytes(b),
            read matches Err(e) ==> (r matches Err(x) && x == Error::IO(e)) && *final(self) == *old(self),
    {
        match read {
            Ok(b) => {
                *self = LazyRead::Bytes(b);
                Ok(())
            },
            Err(e) => Err(Error::IO(e)),
        }
    }

    /// The content as text. Read from the source on the first request only; a
    /// kept byte form is converted; text is kept for later requests.
    pub fn get_string(&mut self) -> (r: Result<&str, Error>)
        where T: ContentSource
        ensures
            old(self).is_read() ==> final(self).content_bytes() == old(self).content_bytes(),
            old(self).is_read() ==> (r is Ok <==> valid_utf8(old(self).content_bytes())),
            old(self).is_read() && !valid_utf8(old(self).content_bytes()) ==> (r matches Err(e) && e is UTF8),
            r is Err ==> *final(self) is Orig || (*final(self) is Bytes && !valid_utf8(
                final(self).content_bytes(),
            )),
            r matches Ok(s) ==> *final(self) is String && s@ == final(self)->String_0@,
            r is Ok ==> final(self).content_bytes() == encode_utf8(final(self)->String_0@),
            *old(self) is String ==> *final(self) == *old(self),
            (*old(self) is Bytes && r is Err) ==> *final(self) == *old(self),
            *old(self) is Orig ==> (r matches Err(e) && e is IO <==> *final(self) is Orig),
    {
        proof {
            broadcast use encode_utf8_valid_utf8;

        }
        if let LazyRead::Orig(v) = self {
            let read = v.read_all();
            if let Err(e) = self.keep_read(read) {
                return Err(e);
            }
        }
        let text: Option<String> = match &*self {
            LazyRead::Bytes(b) => match utf8_text(b.as_slice()) {
                Ok(s) => Some(s.to_owned()),
                Err(e) => {
                    return Err(Error::UTF8(e));
                },
            },
            _ => None,
        };
        if let Some(t) = text {
            *self = LazyRead::String(t);
        }
        match self {
            LazyRead::String(s) => Ok(s.as_str()),
            _ => vstd::pervasive::unreached(),
        }
    }

    /// The content as bytes. Read from the source on the first request only;
    /// kept text is handed out as its UTF-8 bytes.
    pub fn get_bytes(&mut self) -> (r: Result<&[u8], Error>)
        where T: ContentSource
        ensures
            old(self).is_read() ==> *final(self) == *old(self),
            r matches Ok(b) ==> final(self).is_read() && b@ == final(self).content_bytes(),
            r matches Err(e) ==> e is IO && *old(self) is Orig && *final(self) is Orig,
            (*old(self) is Orig && r is Ok) ==> *final(self) is Bytes,
    {
        if let LazyRead::Orig(v) = self {
            let read = v.read_all();
            if let Err(e) = self.keep_read(read) {
                return Err(e);
            }
        }
        match self {
            LazyRead::Bytes(b) => Ok(b.as_slice()),
            LazyRead::String(s) => Ok(s.as_str().as_bytes()),
            LazyRead::Orig(_) => vstd::pervasive::unreached(),
        }
    }
}

} // verus!
