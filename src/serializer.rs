use vstd::prelude::*;

verus! {

/// Encodes values into bytes and decodes them back.
pub trait Serializer {
    type Value;

    /// The bytes that encode `v`.
    spec fn encoding(&self, v: Self::Value) -> Seq<u8>;

    /// Whether `data` decodes to a value.
    spec fn decodes(&self, data: Seq<u8>) -> bool;

    /// Whether the encodings are UTF-8 text.
    spec fn text_encoded(&self) -> bool;

    /// The file extension of the encodings.
    spec fn file_extension(&self) -> Seq<char>;

    /// Whether the encodings are UTF-8 text.
    fn is_utf8(&self) -> (r: bool)
        ensures
            r == self.text_encoded(),
    ;

    /// The file extension of the encodings.
    fn extension(&self) -> (r: &str)
        ensures
            r@ == self.file_extension(),
    ;

    /// The value that `data` encodes, if it encodes one.
    fn from_data(&self, data: &[u8]) -> (r: Option<Self::Value>)
        ensures
            r is Some <==> self.decodes(data@),
            r matches Some(v) ==> self.encoding(v) == data@,
    ;

    /// The encoding of `value`.
    fn to_data(&self, value: &Self::Value) -> (r: Vec<u8>)
        ensures
            r@ == self.encoding(*value),
    ;
}

/// A serializer for byte vectors that copies the bytes as they are.
pub struct ByteSerializer {
    ext: &'static str,
}

impl ByteSerializer {
    /// The file extension.
    pub closed spec fn ext(&self) -> Seq<char> {
        self.ext@
    }

    /// A serializer whose files take the extension `ext`.
    pub fn new(ext: &'static str) -> (r: Self)
        ensures
            r.ext() == ext@,
    {
        ByteSerializer { ext }
    }
}

fn copy_bytes(data: &[u8]) -> (r: Vec<u8>)
    ensures
        r@ == data@,
{
    let mut r: Vec<u8> = Vec::new();
    let n = data.len();
    let mut i: usize = 0;
    while i < n
        invariant
            i <= n,
            n == data@.len(),
            r@ == data@.take(i as int),
        decreases n - i,
    {
        r.push(data[i]);
        i = i + 1;
        assert(r@ =~= data@.take(i as int));
    }
    assert(data@.take(n as int) =~= data@);
    r
}

impl Serializer for ByteSerializer {
    type Value = Vec<u8>;

    open spec fn encoding(&self, v: Vec<u8>) -> Seq<u8> {
        v@
    }

    open spec fn decodes(&self, data: Seq<u8>) -> bool {
        true
    }

    open spec fn text_encoded(&self) -> bool {
        false
    }

    open spec fn file_extension(&self) -> Seq<char> {
        self.ext()
    }

    fn is_utf8(&self) -> (r: bool) {
        false
    }

    fn extension(&self) -> (r: &str) {
        self.ext
    }

    fn from_data(&self, data: &[u8]) -> (r: Option<Vec<u8>>) {
        Some(copy_bytes(data))
    }

    fn to_data(&self, value: &Vec<u8>) -> (r: Vec<u8>) {
        copy_bytes(value.as_slice())
    }
}

} // verus!
