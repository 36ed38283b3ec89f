use vstd::prelude::*;

use vstd::utf8::encode_utf8;
use crate::dtype::TypeId;
use crate::tensor::Tensor;
use crate::bytes::{
    from_le, le_bytes, lemma_le_bytes_len, lemma_pow256, lemma_read_back, push_le, signed_bits, twos,
};

verus! {

/// A metadata value of the GGUF format.
///
/// `Float32` and `Float64` carry the IEEE-754 bit pattern of the number.
pub enum GGUFValue {
    Uint8(u8),
    Int8(i8),
    Uint16(u16),
    Int16(i16),
    Uint32(u32),
    Int32(i32),
    Float32(u32),
    Bool(bool),
    String(String),
    Array(Vec<GGUFValue>),
    Uint64(u64),
    Int64(i64),
    Float64(u64),
}

/// The GGUF type code of a value.
pub open spec fn value_type_code(v: GGUFValue) -> u32 {
    match v {
        GGUFValue::Uint8(_) => 0,
        GGUFValue::Int8(_) => 1,
        GGUFValue::Uint16(_) => 2,
        GGUFValue::Int16(_) => 3,
        GGUFValue::Uint32(_) => 4,
        GGUFValue::Int32(_) => 5,
        GGUFValue::Float32(_) => 6,
        GGUFValue::Bool(_) => 7,
        GGUFValue::String(_) => 8,
        GGUFValue::Array(_) => 9,
        GGUFValue::Uint64(_) => 10,
        GGUFValue::Int64(_) => 11,
        GGUFValue::Float64(_) => 12,
    }
}

/// The element type code written in front of an array: that of its first item, 0 when empty.
pub open spec fn array_type_code(items: Seq<GGUFValue>) -> u32 {
    if items.len() == 0 {
        0
    } else {
        value_type_code(items[0])
    }
}

/// The GGUF encoding of a string: its UTF-8 length as 8 bytes, then its UTF-8 bytes.
pub open spec fn encode_str(s: Seq<char>) -> Seq<u8> {
    le_bytes(encode_utf8(s).len(), 8) + encode_utf8(s)
}

/// The measure that orders a value before the encoding of its own items.
pub open spec fn item_count_bound(v: GGUFValue) -> nat {
    match v {
        GGUFValue::Array(items) => items@.len() + 1,
        _ => 0,
    }
}

/// The GGUF encoding of a value, without its type code.
pub open spec fn encode_value(v: GGUFValue) -> Seq<u8>
    decreases v, item_count_bound(v),
{
    match v {
        GGUFValue::Uint8(x) => le_bytes(x as nat, 1),
        GGUFValue::Int8(x) => le_bytes(twos(x as int, 0x100), 1),
        GGUFValue::Uint16(x) => le_bytes(x as nat, 2),
        GGUFValue::Int16(x) => le_bytes(twos(x as int, 0x1_0000), 2),
        GGUFValue::Uint32(x) => le_bytes(x as nat, 4),
        GGUFValue::Int32(x) => le_bytes(twos(x as int, 0x1_0000_0000), 4),
        GGUFValue::Float32(bits) => le_bytes(bits as nat, 4),
        GGUFValue::Bool(b) => seq![if b { 1u8 } else { 0u8 }],
        GGUFValue::String(s) => encode_str(s@),
        GGUFValue::Array(items) => le_bytes(array_type_code(items@) as nat, 4) + le_bytes(
            items@.len(),
            8,
        ) + encode_items(v, items@.len()),
        GGUFValue::Uint64(x) => le_bytes(x as nat, 8),
        GGUFValue::Int64(x) => le_bytes(twos(x as int, 0x1_0000_0000_0000_0000), 8),
        GGUFValue::Float64(bits) => le_bytes(bits as nat, 8),
    }
}

/// The encodings of the first `n` items of the array `v`, one after another.
pub open spec fn encode_items(v: GGUFValue, n: nat) -> Seq<u8>
    decreases v, n,
{
    match v {
        GGUFValue::Array(items) => if n == 0 || n > items@.len() {
            Seq::empty()
        } else {
            encode_items(v, (n - 1) as nat) + encode_value(items@[n - 1])
        },
        _ => Seq::empty(),
    }
}

/// The GGUF encoding of a key/value pair: the key, the value's type code, the value.
pub open spec fn encode_kv(key: Seq<char>, v: GGUFValue) -> Seq<u8> {
    encode_str(key) + le_bytes(value_type_code(v) as nat, 4) + encode_value(v)
}

/// The four magic bytes that open a GGUF file: `G`, `G`, `U`, `F`.
pub open spec fn gguf_magic() -> Seq<u8> {
    seq![0x47u8, 0x47u8, 0x55u8, 0x46u8]
}

/// The GGUF version this encoder writes.
pub open spec fn gguf_version() -> nat {
    3
}

/// The GGUF header: magic, version, tensor count and key/value count.
pub open spec fn encode_header(tensor_count: u32, kv_count: u32) -> Seq<u8> {
    gguf_magic() + le_bytes(gguf_version(), 4) + le_bytes(tensor_count as nat, 8) + le_bytes(
        kv_count as nat,
        8,
    )
}

/// The GGUF code of a tensor's element type: 0 for 32-bit floats, 1 for 16-bit floats, 2 otherwise.
pub open spec fn tensor_type_code(t: TypeId) -> u32 {
    match t {
        TypeId::Float32 => 0,
        TypeId::Float16 => 1,
        _ => 2,
    }
}

/// The dimensions of a tensor, each as 8 little-endian bytes, outermost first.
pub open spec fn encode_dims(dims: Seq<usize>) -> Seq<u8>
    decreases dims.len(),
{
    if dims.len() == 0 {
        Seq::empty()
    } else {
        encode_dims(dims.drop_last()) + le_bytes(dims.last() as nat, 8)
    }
}

/// The GGUF description of a tensor: name, number of dimensions, dimensions,
/// element type code and the offset of its data.
pub open spec fn encode_tensor_info(name: Seq<char>, dims: Seq<usize>, dtype: TypeId, offset: u64) -> Seq<u8> {
    encode_str(name) + le_bytes((dims.len() as u32) as nat, 4) + encode_dims(dims) + le_bytes(
        tensor_type_code(dtype) as nat,
        4,
    ) + le_bytes(offset as nat, 8)
}

pub proof fn lemma_encode_dims_len(dims: Seq<usize>)
    ensures
        encode_dims(dims).len() == 8 * dims.len(),
    decreases dims.len(),
{
    if dims.len() > 0 {
        lemma_encode_dims_len(dims.drop_last());
        lemma_le_bytes_len(dims.last() as nat, 8);
    }
}

/// The number of zero bytes that brings position `pos` to a multiple of `alignment`.
pub open spec fn padding_len(pos: nat, alignment: nat) -> nat {
    ((alignment - pos % alignment) % (alignment as int)) as nat
}

/// `n` zero bytes.
pub open spec fn zeros(n: nat) -> Seq<u8> {
    Seq::new(n, |i: int| 0u8)
}

pub proof fn lemma_items_prefix(v: GGUFValue, k: nat, n: nat)
    requires
        k <= n,
        v is Array ==> n <= v->Array_0@.len(),
    ensures
        encode_items(v, k).len() <= encode_items(v, n).len(),
    decreases n,
{
    if k < n {
        lemma_items_prefix(v, k, (n - 1) as nat);
    }
}

/// Padding a position brings it to a multiple of the alignment, with fewer bytes than the alignment.
pub proof fn lemma_padding_aligns(pos: nat, alignment: nat)
    requires
        alignment > 0,
    ensures
        (pos + padding_len(pos, alignment)) % alignment == 0,
        padding_len(pos, alignment) < alignment,
        pos % alignment == 0 ==> padding_len(pos, alignment) == 0,
{
    let a = alignment as int;
    let r = pos as int % a;
    vstd::arithmetic::div_mod::lemma_fundamental_div_mod(pos as int, a);
    let q = pos as int / a;
    if r == 0 {
        vstd::arithmetic::div_mod::lemma_mod_self_0(a);
        assert(padding_len(pos, alignment) == 0);
    } else {
        vstd::arithmetic::div_mod::lemma_small_mod((a - r) as nat, alignment);
        assert(padding_len(pos, alignment) == a - r);
        assert(pos + padding_len(pos, alignment) == (q + 1) * a) by (nonlinear_arith)
            requires
                pos == a * q + r,
                padding_len(pos, alignment) == a - r,
        ;
        vstd::arithmetic::div_mod::lemma_mod_multiples_basic(q + 1, a);
    }
}

/// The fixed-width values encode to 1, 2, 4 or 8 bytes.
pub proof fn lemma_scalar_len(v: GGUFValue)
    ensures
        v is Uint8 || v is Int8 || v is Bool ==> encode_value(v).len() == 1,
        v is Uint16 || v is Int16 ==> encode_value(v).len() == 2,
        v is Uint32 || v is Int32 || v is Float32 ==> encode_value(v).len() == 4,
        v is Uint64 || v is Int64 || v is Float64 ==> encode_value(v).len() == 8,
{
    match v {
        GGUFValue::Uint8(x) => lemma_le_bytes_len(x as nat, 1),
        GGUFValue::Int8(x) => lemma_le_bytes_len(twos(x as int, 0x100), 1),
        GGUFValue::Uint16(x) => lemma_le_bytes_len(x as nat, 2),
        GGUFValue::Int16(x) => lemma_le_bytes_len(twos(x as int, 0x1_0000), 2),
        GGUFValue::Uint32(x) => lemma_le_bytes_len(x as nat, 4),
        GGUFValue::Int32(x) => lemma_le_bytes_len(twos(x as int, 0x1_0000_0000), 4),
        GGUFValue::Float32(x) => lemma_le_bytes_len(x as nat, 4),
        GGUFValue::Uint64(x) => lemma_le_bytes_len(x as nat, 8),
        GGUFValue::Int64(x) => lemma_le_bytes_len(twos(x as int, 0x1_0000_0000_0000_0000), 8),
        GGUFValue::Float64(x) => lemma_le_bytes_len(x as nat, 8),
        _ => {},
    }
}

/// A GGUF file encoder.
///
/// Encoded bytes gather in a pending buffer; `take_output` hands them to the
/// caller, who writes them out. `current_pos` counts every byte encoded so far.
pub struct GGUFWriter {
    pending: Vec<u8>,
    current_pos: u64,
    flushed: Ghost<Seq<u8>>,
}

impl GGUFWriter {
    /// Every byte encoded so far, handed out or pending.
    pub closed spec fn stream(&self) -> Seq<u8> {
        self.flushed@ + self.pending@
    }

    /// The bytes encoded and not yet handed out.
    pub closed spec fn pending(&self) -> Seq<u8> {
        self.pending@
    }

    /// The position in the file: the number of bytes encoded so far.
    pub closed spec fn pos(&self) -> nat {
        self.current_pos as nat
    }

    /// The position counts exactly the bytes encoded.
    pub closed spec fn wf(&self) -> bool {
        self.current_pos == self.flushed@.len() + self.pending@.len()
    }

    /// Starts an empty file.
    pub fn new() -> (w: Self)
        ensures
            w.wf(),
            w.stream() == Seq::<u8>::empty(),
            w.pending() == Seq::<u8>::empty(),
            w.pos() == 0,
    {
        GGUFWriter { pending: Vec::new(), current_pos: 0, flushed: Ghost(Seq::empty()) }
    }

    /// Hands out the pending bytes; the stream and the position stay as they were.
    pub fn take_output(&mut self) -> (out: Vec<u8>)
        requires
            old(self).wf(),
        ensures
            final(self).wf(),
            out@ == old(self).pending(),
            final(self).pending() == Seq::<u8>::empty(),
            final(self).stream() == old(self).stream(),
            final(self).pos() == old(self).pos(),
    {
        let mut out: Vec<u8> = Vec::new();
        std::mem::swap(&mut out, &mut self.pending);
        self.flushed = Ghost(self.flushed@ + out@);
        assert(self.stream() =~= old(self).stream());
        out
    }

    /// Appends `data` to the file.
    pub fn write_all(&mut self, data: &[u8])
        requires
            old(self).wf(),
            old(self).pos() + data@.len() <= u64::MAX,
        ensures
            final(self).wf(),
            final(self).stream() == old(self).stream() + data@,
            final(self).pending() == old(self).pending() + data@,
            final(self).pos() == old(self).pos() + data@.len(),
    {
        let mut i: usize = 0;
        while i < data.len()
            invariant
                i <= data@.len(),
                self.pending@ == old(self).pending@ + data@.take(i as int),
                self.flushed == old(self).flushed,
                self.current_pos == old(self).current_pos,
            decreases data@.len() - i,
        {
            self.pending.push(data[i]);
            assert(data@.take(i + 1) == data@.take(i as int).push(data@[i as int]));
            i = i + 1;
        }
        assert(data@.take(i as int) =~= data@);
        self.current_pos = self.current_pos + data.len() as u64;
        assert(self.stream() =~= old(self).stream() + data@);
    }

    /// Appends the `n` low bytes of `v`, least significant first.
    fn write_le(&mut self, v: u64, n: usize)
        requires
            old(self).wf(),
            old(self).pos() + n <= u64::MAX,
        ensures
            final(self).wf(),
            final(self).stream() == old(self).stream() + le_bytes(v as nat, n as nat),
            final(self).pending() == old(self).pending() + le_bytes(v as nat, n as nat),
            final(self).pos() == old(self).pos() + n,
    {
        proof {
            lemma_le_bytes_len(v as nat, n as nat);
        }
        push_le(&mut self.pending, v, n);
        self.current_pos = self.current_pos + n as u64;
        assert(self.stream() =~= old(self).stream() + le_bytes(v as nat, n as nat));
    }

    /// Writes the file header: magic, version 3, tensor count and key/value count.
    pub fn write_header(&mut self, tensor_count: u32, kv_count: u32)
        requires
            old(self).wf(),
            old(self).pos() + 24 <= u64::MAX,
        ensures
            final(self).wf(),
            final(self).stream() == old(self).stream() + encode_header(tensor_count, kv_count),
            final(self).pending() == old(self).pending() + encode_header(tensor_count, kv_count),
            final(self).pos() == old(self).pos() + 24,
    {
        self.write_le(0x4655_4747, 4);
        self.write_le(3, 4);
        self.write_le(tensor_count as u64, 8);
        self.write_le(kv_count as u64, 8);
        proof {
            reveal_with_fuel(le_bytes, 5);
            assert(le_bytes(0x4655_4747, 4) =~= gguf_magic());
            assert(self.stream() =~= old(self).stream() + encode_header(tensor_count, kv_count));
            assert(self.pending() =~= old(self).pending() + encode_header(tensor_count, kv_count));
        }
    }

    /// Writes one key/value pair: the key as a GGUF string, the value's type code, the value.
    pub fn write_kv(&mut self, key: &str, value: GGUFValue)
        requires
            old(self).wf(),
            old(self).pos() + encode_kv(key@, value).len() <= u64::MAX,
        ensures
            final(self).wf(),
            final(self).stream() == old(self).stream() + encode_kv(key@, value),
            final(self).pending() == old(self).pending() + encode_kv(key@, value),
            final(self).pos() == old(self).pos() + encode_kv(key@, value).len(),
    {
        let bytes = key.as_bytes();
        proof {
            lemma_le_bytes_len(bytes@.len(), 8);
            lemma_le_bytes_len(value_type_code(value) as nat, 4);
        }
        self.write_le(bytes.len() as u64, 8);
        self.write_all(bytes);
        let code = value.type_id();
        self.write_le(code as u64, 4);
        value.write(self);
        proof {
            assert(self.stream() =~= old(self).stream() + encode_kv(key@, value));
            assert(self.pending() =~= old(self).pending() + encode_kv(key@, value));
        }
    }

    /// Pads the file with zero bytes up to the next multiple of `alignment`.
    pub fn align(&mut self, alignment: u64)
        requires
            old(self).wf(),
            alignment > 0,
            old(self).pos() + padding_len(old(self).pos(), alignment as nat) <= u64::MAX,
        ensures
            final(self).wf(),
            final(self).stream() == old(self).stream() + zeros(
                padding_len(old(self).pos(), alignment as nat),
            ),
            final(self).pending() == old(self).pending() + zeros(
                padding_len(old(self).pos(), alignment as nat),
            ),
            final(self).pos() == old(self).pos() + padding_len(old(self).pos(), alignment as nat),
            final(self).pos() % (alignment as nat) == 0,
    {
        let padding = (alignment - (self.current_pos % alignment)) % alignment;
        let mut k: u64 = 0;
        while k < padding
            invariant
                k <= padding,
                padding == padding_len(old(self).pos(), alignment as nat),
                self.flushed == old(self).flushed,
                self.current_pos == old(self).current_pos,
                self.pending@ == old(self).pending@ + zeros(k as nat),
            decreases padding - k,
        {
            self.pending.push(0);
            assert(zeros((k + 1) as nat) =~= zeros(k as nat).push(0u8));
            k = k + 1;
        }
        self.current_pos = self.current_pos + padding;
        proof {
            lemma_padding_aligns(old(self).pos(), alignment as nat);
            assert(self.stream() =~= old(self).stream() + zeros(padding as nat));
        }
    }

    /// Writes the description of a tensor: its name, shape, element type code and
    /// the offset of its data.
    pub fn write_tensor(&mut self, name: &str, tensor: &Tensor, offset: u64)
        requires
            old(self).wf(),
            old(self).pos() + encode_tensor_info(
                name@,
                tensor.spec_shape(),
                tensor.spec_dtype(),
                offset,
            ).len() <= u64::MAX,
        ensures
            final(self).wf(),
            final(self).stream() == old(self).stream() + encode_tensor_info(
                name@,
                tensor.spec_shape(),
                tensor.spec_dtype(),
                offset,
            ),
            final(self).pending() == old(self).pending() + encode_tensor_info(
                name@,
                tensor.spec_shape(),
                tensor.spec_dtype(),
                offset,
            ),
            final(self).pos() == old(self).pos() + encode_tensor_info(
                name@,
                tensor.spec_shape(),
                tensor.spec_dtype(),
                offset,
            ).len(),
    {
        let ghost info = encode_tensor_info(name@, tensor.spec_shape(), tensor.spec_dtype(), offset);
        let bytes = name.as_bytes();
        let dims = tensor.shape().dims();
        proof {
            lemma_le_bytes_len(bytes@.len(), 8);
            lemma_le_bytes_len((dims@.len() as u32) as nat, 4);
            lemma_le_bytes_len(tensor_type_code(tensor.spec_dtype()) as nat, 4);
            lemma_le_bytes_len(offset as nat, 8);
            lemma_encode_dims_len(dims@);
        }
        self.write_le(bytes.len() as u64, 8);
        self.write_all(bytes);
        let ndim = tensor.shape().ndim() as u32;
        self.write_le(ndim as u64, 4);
        let ghost before = self.stream();
        let ghost before_pending = self.pending();
        let mut i: usize = 0;
        while i < dims.len()
            invariant
                i <= dims@.len(),
                dims@ == tensor.spec_shape(),
                self.wf(),
                self.stream() == before + encode_dims(dims@.take(i as int)),
                self.pending() == before_pending + encode_dims(dims@.take(i as int)),
                self.pos() == before.len() + 8 * i,
                before.len() == old(self).pos() + 8 + bytes@.len() + 4,
                old(self).pos() + info.len() <= u64::MAX,
                info.len() == 8 + bytes@.len() + 4 + 8 * dims@.len() + 4 + 8,
            decreases dims@.len() - i,
        {
            assert(dims@.take(i + 1).drop_last() =~= dims@.take(i as int));
            self.write_le(dims[i] as u64, 8);
            i = i + 1;
        }
        assert(dims@.take(i as int) =~= dims@);
        let code: u32 = match tensor.dtype() {
            TypeId::Float32 => 0,
            TypeId::Float16 => 1,
            _ => 2,
        };
        self.write_le(code as u64, 4);
        self.write_le(offset, 8);
        proof {
            assert(self.stream() =~= old(self).stream() + info);
            assert(self.pending() =~= old(self).pending() + info);
        }
    }

    /// Writes the bytes of a tensor, then pads the file to a multiple of 32 bytes.
    pub fn write_tensor_data(&mut self, tensor: &Tensor)
        requires
            old(self).wf(),
            old(self).pos() + tensor.spec_bytes().len() + padding_len(
                old(self).pos() + tensor.spec_bytes().len(),
                32,
            ) <= u64::MAX,
        ensures
            final(self).wf(),
            final(self).stream() == old(self).stream() + tensor.spec_bytes() + zeros(
                padding_len(old(self).pos() + tensor.spec_bytes().len(), 32),
            ),
            final(self).pending() == old(self).pending() + tensor.spec_bytes() + zeros(
                padding_len(old(self).pos() + tensor.spec_bytes().len(), 32),
            ),
            final(self).pos() == old(self).pos() + tensor.spec_bytes().len() + padding_len(
                old(self).pos() + tensor.spec_bytes().len(),
                32,
            ),
            final(self).pos() % 32 == 0,
    {
        let data = tensor.bytes();
        self.write_all(data);
        self.align(32);
    }
}

impl GGUFValue {
    /// Returns the GGUF type code of this value.
    pub fn type_id(&self) -> (code: u32)
        ensures
            code == value_type_code(*self),
    {
        match self {
            GGUFValue::Uint8(_) => 0,
            GGUFValue::Int8(_) => 1,
            GGUFValue::Uint16(_) => 2,
            GGUFValue::Int16(_) => 3,
            GGUFValue::Uint32(_) => 4,
            GGUFValue::Int32(_) => 5,
            GGUFValue::Float32(_) => 6,
            GGUFValue::Bool(_) => 7,
            GGUFValue::String(_) => 8,
            GGUFValue::Array(_) => 9,
            GGUFValue::Uint64(_) => 10,
            GGUFValue::Int64(_) => 11,
            GGUFValue::Float64(_) => 12,
        }
    }

    /// Appends the encoding of this value (without its type code) to the file.
    pub fn write(&self, writer: &mut GGUFWriter)
        requires
            old(writer).wf(),
            old(writer).pos() + encode_value(*self).len() <= u64::MAX,
        ensures
            final(writer).wf(),
            final(writer).stream() == old(writer).stream() + encode_value(*self),
            final(writer).pending() == old(writer).pending() + encode_value(*self),
            final(writer).pos() == old(writer).pos() + encode_value(*self).len(),
        decreases *self,
    {
        proof {
            lemma_scalar_len(*self);
        }
        match self {
            GGUFValue::Uint8(v) => writer.write_le(*v as u64, 1),
            GGUFValue::Int8(v) => {
                let u: u64 = if *v >= 0 {
                    *v as u64
                } else {
                    (*v as i16 + 0x100) as u64
                };
                writer.write_le(u, 1);
            },
            GGUFValue::Uint16(v) => writer.write_le(*v as u64, 2),
            GGUFValue::Int16(v) => {
                let u: u64 = if *v >= 0 {
                    *v as u64
                } else {
                    (*v as i32 + 0x1_0000) as u64
                };
                writer.write_le(u, 2);
            },
            GGUFValue::Uint32(v) => writer.write_le(*v as u64, 4),
            GGUFValue::Int32(v) => {
                let u: u64 = if *v >= 0 {
                    *v as u64
                } else {
                    (*v as i64 + 0x1_0000_0000) as u64
                };
                writer.write_le(u, 4);
            },
            GGUFValue::Float32(bits) => writer.write_le(*bits as u64, 4),
            GGUFValue::Bool(b) => {
                let byte: u64 = if *b { 1 } else { 0 };
                proof {
                    reveal_with_fuel(le_bytes, 2);
                    assert(le_bytes(byte as nat, 1) =~= encode_value(*self));
                }
                writer.write_le(byte, 1);
            },
            GGUFValue::String(v) => {
                let bytes = v.as_str().as_bytes();
                proof {
                    lemma_le_bytes_len(bytes@.len(), 8);
                }
                writer.write_le(bytes.len() as u64, 8);
                writer.write_all(bytes);
                proof {
                    assert(writer.stream() =~= old(writer).stream() + encode_value(*self));
                    assert(writer.pending() =~= old(writer).pending() + encode_value(*self));
                }
            },
            GGUFValue::Array(items) => {
                proof {
                    lemma_le_bytes_len(array_type_code(items@) as nat, 4);
                    lemma_le_bytes_len(items@.len(), 8);
                }
                let code: u32 = if items.len() == 0 {
                    0
                } else {
                    items[0].type_id()
                };
                writer.write_le(code as u64, 4);
                writer.write_le(items.len() as u64, 8);
                let ghost head = le_bytes(array_type_code(items@) as nat, 4) + le_bytes(
                    items@.len(),
                    8,
                );
                let mut i: usize = 0;
                while i < items.len()
                    invariant
                        i <= items@.len(),
                        *self == GGUFValue::Array(*items),
                        encode_value(*self) == head + encode_items(*self, items@.len()),
                        writer.wf(),
                        writer.stream() == old(writer).stream() + head + encode_items(
                            *self,
                            i as nat,
                        ),
                        writer.pending() == old(writer).pending() + head + encode_items(
                            *self,
                            i as nat,
                        ),
                        old(writer).pos() + encode_value(*self).len() <= u64::MAX,
                        writer.pos() == old(writer).pos() + head.len() + encode_items(
                            *self,
                            i as nat,
                        ).len(),
                    decreases items@.len() - i,
                {
                    proof {
                        lemma_items_prefix(*self, (i + 1) as nat, items@.len());
                    }
                    items[i].write(writer);
                    proof {
                        assert(writer.stream() =~= old(writer).stream() + head + encode_items(
                            *self,
                            (i + 1) as nat,
                        ));
                        assert(writer.pending() =~= old(writer).pending() + head + encode_items(
                            *self,
                            (i + 1) as nat,
                        ));
                    }
                    i = i + 1;
                }
                proof {
                    assert(writer.stream() =~= old(writer).stream() + encode_value(*self));
                    assert(writer.pending() =~= old(writer).pending() + encode_value(*self));
                }
            },
            GGUFValue::Uint64(v) => writer.write_le(*v, 8),
            GGUFValue::Int64(v) => {
                let u = signed_bits(*v);
                writer.write_le(u, 8);
            },
            GGUFValue::Float64(bits) => writer.write_le(*bits, 8),
        }
    }
}

/// Aligning is idempotent: once the position is a multiple of the alignment, aligning again
/// adds no bytes.
pub proof fn law_align_idempotent(pos: nat, alignment: nat)
    requires
        alignment > 0,
    ensures
        padding_len(pos + padding_len(pos, alignment), alignment) == 0,
        padding_len(pos, alignment) < alignment,
{
    lemma_padding_aligns(pos, alignment);
    lemma_padding_aligns(pos + padding_len(pos, alignment), alignment);
}

/// Every header is 24 bytes long and opens with the magic `GGUF` and the version 3.
pub proof fn law_header_layout(tensor_count: u32, kv_count: u32)
    ensures
        encode_header(tensor_count, kv_count).len() == 24,
        encode_header(tensor_count, kv_count).take(4) == gguf_magic(),
        encode_header(tensor_count, kv_count).subrange(4, 8) == le_bytes(3, 4),
{
    lemma_le_bytes_len(3, 4);
    lemma_le_bytes_len(tensor_count as nat, 8);
    lemma_le_bytes_len(kv_count as nat, 8);
    let h = encode_header(tensor_count, kv_count);
    assert(h.take(4) =~= gguf_magic());
    assert(h.subrange(4, 8) =~= le_bytes(3, 4));
}

/// Every fixed-width value reads back from its encoding as itself: unsigned values and bit
/// patterns exactly, signed values as their two's-complement word (the value modulo
/// `2^bits`), booleans as 1 or 0; and each takes its width in bytes.
pub proof fn law_fixed_width_values_read_back(v: GGUFValue)
    ensures
        v matches GGUFValue::Uint8(x) ==> from_le(encode_value(v)) == x && encode_value(v).len()
            == 1,
        v matches GGUFValue::Int8(x) ==> from_le(encode_value(v)) == (x as int) % 0x100
            && encode_value(v).len() == 1,
        v matches GGUFValue::Uint16(x) ==> from_le(encode_value(v)) == x && encode_value(v).len()
            == 2,
        v matches GGUFValue::Int16(x) ==> from_le(encode_value(v)) == (x as int) % 0x1_0000
            && encode_value(v).len() == 2,
        v matches GGUFValue::Uint32(x) ==> from_le(encode_value(v)) == x && encode_value(v).len()
            == 4,
        v matches GGUFValue::Int32(x) ==> from_le(encode_value(v)) == (x as int) % 0x1_0000_0000
            && encode_value(v).len() == 4,
        v matches GGUFValue::Float32(bits) ==> from_le(encode_value(v)) == bits
            && encode_value(v).len() == 4,
        v matches GGUFValue::Uint64(x) ==> from_le(encode_value(v)) == x && encode_value(v).len()
            == 8,
        v matches GGUFValue::Int64(x) ==> from_le(encode_value(v)) == (x as int)
            % 0x1_0000_0000_0000_0000 && encode_value(v).len() == 8,
        v matches GGUFValue::Float64(bits) ==> from_le(encode_value(v)) == bits
            && encode_value(v).len() == 8,
        v matches GGUFValue::Bool(b) ==> from_le(encode_value(v)) == (if b {
            1int
        } else {
            0int
        }) && encode_value(v).len() == 1,
{
    lemma_pow256();
    match v {
        GGUFValue::Uint8(x) => lemma_read_back(x as nat, 1),
        GGUFValue::Int8(x) => lemma_read_back(twos(x as int, 0x100), 1),
        GGUFValue::Uint16(x) => lemma_read_back(x as nat, 2),
        GGUFValue::Int16(x) => lemma_read_back(twos(x as int, 0x1_0000), 2),
        GGUFValue::Uint32(x) => lemma_read_back(x as nat, 4),
        GGUFValue::Int32(x) => lemma_read_back(twos(x as int, 0x1_0000_0000), 4),
        GGUFValue::Float32(x) => lemma_read_back(x as nat, 4),
        GGUFValue::Uint64(x) => lemma_read_back(x as nat, 8),
        GGUFValue::Int64(x) => lemma_read_back(twos(x as int, 0x1_0000_0000_0000_0000), 8),
        GGUFValue::Float64(x) => lemma_read_back(x as nat, 8),
        GGUFValue::Bool(b) => {
            reveal_with_fuel(from_le, 2);
            let e = encode_value(v);
            assert(e.drop_first() =~= Seq::<u8>::empty());
        },
        _ => {},
    }
}

/// A key/value pair is laid out as: the key's UTF-8 length in 8 bytes (modulo `2^64`), the key's UTF-8 bytes,
/// then 4 bytes holding the value's own GGUF type code (0 for `Uint8` through 12 for `Float64`;
/// 9 for every array, whatever its items), then the value.
pub proof fn law_kv_layout(key: Seq<char>, v: GGUFValue)
    ensures
        ({
            let kb = encode_utf8(key);
            let k = kb.len() as int;
            let e = encode_kv(key, v);
            let code = from_le(e.subrange(8 + k, 12 + k));
            &&& from_le(e.subrange(0, 8)) == kb.len() % 0x1_0000_0000_0000_0000
            &&& e.subrange(8, 8 + k) == kb
            &&& e.skip(12 + k) == encode_value(v)
            &&& code == value_type_code(v)
            &&& (v is Uint8 ==> code == 0)
            &&& (v is Int8 ==> code == 1)
            &&& (v is Uint16 ==> code == 2)
            &&& (v is Int16 ==> code == 3)
            &&& (v is Uint32 ==> code == 4)
            &&& (v is Int32 ==> code == 5)
            &&& (v is Float32 ==> code == 6)
            &&& (v is Bool ==> code == 7)
            &&& (v is String ==> code == 8)
            &&& (v is Array ==> code == 9)
            &&& (v is Uint64 ==> code == 10)
            &&& (v is Int64 ==> code == 11)
            &&& (v is Float64 ==> code == 12)
        }),
{
    let kb = encode_utf8(key);
    let k = kb.len() as int;
    lemma_pow256();
    crate::bytes::law_le_bytes_roundtrip(kb.len(), 8);
    lemma_le_bytes_len(kb.len(), 8);
    lemma_read_back(value_type_code(v) as nat, 4);
    let e = encode_kv(key, v);
    assert(e.subrange(0, 8) =~= le_bytes(kb.len(), 8));
    assert(e.subrange(8, 8 + k) =~= kb);
    assert(e.subrange(8 + k, 12 + k) =~= le_bytes(value_type_code(v) as nat, 4));
    assert(e.skip(12 + k) =~= encode_value(v));
}

/// Dimension `i` of a tensor description sits in the 8 bytes at `8 * i` of the encoded dimensions.
pub proof fn lemma_encode_dims_entry(dims: Seq<usize>, i: int)
    requires
        0 <= i < dims.len(),
    ensures
        encode_dims(dims).subrange(8 * i, 8 * i + 8) == le_bytes(dims[i] as nat, 8),
    decreases dims.len(),
{
    let pre = dims.drop_last();
    lemma_encode_dims_len(pre);
    lemma_le_bytes_len(dims.last() as nat, 8);
    if i == dims.len() - 1 {
        assert(encode_dims(dims).subrange(8 * i, 8 * i + 8) =~= le_bytes(dims.last() as nat, 8));
    } else {
        lemma_encode_dims_entry(pre, i);
        assert(encode_dims(dims).subrange(8 * i, 8 * i + 8) =~= encode_dims(pre).subrange(
            8 * i,
            8 * i + 8,
        ));
    }
}

/// The GGUF type code of a tensor names its element type: 0 exactly for 32-bit floats, 1 exactly
/// for 16-bit IEEE half floats, and 2 for every other element type, brain floats included.
pub proof fn law_tensor_type_code(t: TypeId)
    ensures
        tensor_type_code(t) == 0 <==> t == TypeId::Float32,
        tensor_type_code(t) == 1 <==> t == TypeId::Float16,
        tensor_type_code(t) == 2 <==> (t != TypeId::Float32 && t != TypeId::Float16),
{
}

/// A tensor description is laid out as: the name's UTF-8 length in 8 bytes (modulo `2^64`), the
/// name's UTF-8 bytes, the number of dimensions in 4 bytes (as a `u32`), each dimension in 8
/// bytes in order, the element type code in 4 bytes (0 for 32-bit floats, 1 for 16-bit IEEE half
/// floats, 2 for anything else), and the data offset in 8 bytes.
pub proof fn law_tensor_info_layout(name: Seq<char>, dims: Seq<usize>, dtype: TypeId, offset: u64)
    ensures
        ({
            let nb = encode_utf8(name);
            let k = nb.len() as int;
            let n = dims.len() as int;
            let e = encode_tensor_info(name, dims, dtype, offset);
            let code_at = 12 + k + 8 * n;
            &&& e.len() == code_at + 12
            &&& from_le(e.subrange(0, 8)) == nb.len() % 0x1_0000_0000_0000_0000
            &&& e.subrange(8, 8 + k) == nb
            &&& from_le(e.subrange(8 + k, 12 + k)) == dims.len() as u32
            &&& dims.len() <= u32::MAX ==> from_le(e.subrange(8 + k, 12 + k)) == dims.len()
            &&& forall|i: int|
                0 <= i < n ==> from_le(#[trigger] e.subrange(12 + k + 8 * i, 20 + k + 8 * i))
                    == dims[i]
            &&& from_le(e.subrange(code_at, code_at + 4)) == (if dtype == TypeId::Float32 {
                0int
            } else if dtype == TypeId::Float16 {
                1int
            } else {
                2int
            })
            &&& from_le(e.subrange(code_at + 4, code_at + 12)) == offset
        }),
{
    let nb = encode_utf8(name);
    let k = nb.len() as int;
    let n = dims.len() as int;
    let e = encode_tensor_info(name, dims, dtype, offset);
    let code_at = 12 + k + 8 * n;
    lemma_pow256();
    crate::bytes::law_le_bytes_roundtrip(nb.len(), 8);
    lemma_le_bytes_len(nb.len(), 8);
    lemma_read_back((dims.len() as u32) as nat, 4);
    lemma_encode_dims_len(dims);
    lemma_read_back(tensor_type_code(dtype) as nat, 4);
    lemma_read_back(offset as nat, 8);
    assert(e.subrange(0, 8) =~= le_bytes(nb.len(), 8));
    assert(e.subrange(8, 8 + k) =~= nb);
    assert(e.subrange(8 + k, 12 + k) =~= le_bytes((dims.len() as u32) as nat, 4));
    assert forall|i: int| 0 <= i < n implies from_le(
        #[trigger] e.subrange(12 + k + 8 * i, 20 + k + 8 * i),
    ) == dims[i] by {
        lemma_encode_dims_entry(dims, i);
        lemma_pow256();
        lemma_read_back(dims[i] as nat, 8);
        assert(e.subrange(12 + k + 8 * i, 20 + k + 8 * i) =~= encode_dims(dims).subrange(
            8 * i,
            8 * i + 8,
        ));
    }
    assert(e.subrange(code_at, code_at + 4) =~= le_bytes(tensor_type_code(dtype) as nat, 4));
    assert(e.subrange(code_at + 4, code_at + 12) =~= le_bytes(offset as nat, 8));
}

/// A string value is its UTF-8 length in 8 bytes (modulo `2^64`) followed by its UTF-8 bytes;
/// an array value is the first item's own type code in 4 bytes (0 for an empty array), the
/// number of items in 8 bytes (modulo `2^64`), then each item's encoding in order.
pub proof fn law_string_and_array_layout(v: GGUFValue)
    ensures
        v matches GGUFValue::String(s) ==> ({
            let b = encode_utf8(s@);
            &&& from_le(encode_value(v).subrange(0, 8)) == b.len() % 0x1_0000_0000_0000_0000
            &&& encode_value(v).skip(8) == b
        }),
        v matches GGUFValue::Array(items) ==> ({
            let e = encode_value(v);
            &&& from_le(e.subrange(0, 4)) == (if items@.len() == 0 {
                0
            } else {
                value_type_code(items@[0])
            })
            &&& from_le(e.subrange(4, 12)) == items@.len() % 0x1_0000_0000_0000_0000
            &&& e.skip(12) == encode_items(v, items@.len())
            &&& forall|i: nat|
                i < items@.len() ==> #[trigger] encode_items(v, i + 1) == encode_items(v, i)
                    + encode_value(items@[i as int])
        }),
{
    lemma_pow256();
    match v {
        GGUFValue::String(s) => {
            let b = encode_utf8(s@);
            crate::bytes::law_le_bytes_roundtrip(b.len(), 8);
            lemma_le_bytes_len(b.len(), 8);
            assert(encode_value(v).subrange(0, 8) =~= le_bytes(b.len(), 8));
            assert(encode_value(v).skip(8) =~= b);
        },
        GGUFValue::Array(items) => {
            let e = encode_value(v);
            lemma_read_back(array_type_code(items@) as nat, 4);
            crate::bytes::law_le_bytes_roundtrip(items@.len(), 8);
            lemma_le_bytes_len(items@.len(), 8);
            assert(e.subrange(0, 4) =~= le_bytes(array_type_code(items@) as nat, 4));
            assert(e.subrange(4, 12) =~= le_bytes(items@.len(), 8));
            assert(e.skip(12) =~= encode_items(v, items@.len()));
        },
        _ => {},
    }
}

} // verus!
