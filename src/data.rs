use vstd::prelude::*;

use crate::element::{trunc_quotient, NumericElement};
use crate::text::{decimal, push_decimal, signed_decimal};

verus! {

/// Why an operation on a `Data` buffer was refused.
#[derive(Debug, Clone, Copy, PartialEq, Eq, Structural)]
pub enum DataError {
    /// `slice` was asked for a range with `start > end` or `end` past the length.
    InvalidSliceRange,
    /// `reshape` was asked for zero elements.
    ZeroLengthReshape,
    /// `dot` was given buffers of different lengths.
    LengthMismatch,
    /// A reduction that needs at least one element met an empty buffer.
    EmptyBufferReduction,
}

/// A flat buffer of numeric elements with a shape descriptor.
///
/// The shape is stored and carried along but never checked against the
/// number of elements, and no operation consults it.
#[derive(Debug, Clone)]
pub struct Data<T> {
    pub data: Vec<T>,
    pub shape: Vec<usize>,
}

/// The integers that a sequence of elements stands for.
pub open spec fn values_of<T: NumericElement>(s: Seq<T>) -> Seq<int> {
    s.map_values(|x: T| x.value())
}

/// The left-to-right sum of a sequence, starting from zero.
pub open spec fn sum_of(s: Seq<int>) -> int
    decreases s.len(),
{
    if s.len() == 0 {
        0
    } else {
        sum_of(s.drop_last()) + s.last()
    }
}

/// The elementwise products of two sequences, over the length of the first.
pub open spec fn products(a: Seq<int>, b: Seq<int>) -> Seq<int> {
    Seq::new(a.len(), |i: int| a[i] * b[i])
}

/// The dot product of two sequences.
pub open spec fn dot_of(a: Seq<int>, b: Seq<int>) -> int {
    sum_of(products(a, b))
}

/// Every running total of a left-to-right sum of `s` can be held by `T`.
pub open spec fn partial_sums_held<T: NumericElement>(s: Seq<int>) -> bool {
    forall|k: int| 0 <= k <= s.len() ==> #[trigger] T::holds(sum_of(s.take(k)))
}

/// Every product and every running total of the dot product of `a` and `b`
/// can be held by `T`.
pub open spec fn dot_held<T: NumericElement>(a: Seq<int>, b: Seq<int>) -> bool {
    &&& forall|i: int| 0 <= i < a.len() ==> #[trigger] T::holds(a[i] * b[i])
    &&& partial_sums_held::<T>(products(a, b))
}

/// The sequence `s` cut or padded with zeros to length `n`.
pub open spec fn resized(s: Seq<int>, n: nat) -> Seq<int> {
    if n <= s.len() {
        s.take(n as int)
    } else {
        s + Seq::new((n - s.len()) as nat, |i: int| 0)
    }
}

/// Index `i` holds a least value of `s`, and no earlier index does.
pub open spec fn is_first_least(s: Seq<int>, i: int) -> bool {
    &&& 0 <= i < s.len()
    &&& forall|j: int| 0 <= j < s.len() ==> s[i] <= #[trigger] s[j]
    &&& forall|j: int| 0 <= j < i ==> s[i] < #[trigger] s[j]
}

/// Index `i` holds a greatest value of `s`, and no earlier index does.
pub open spec fn is_first_greatest(s: Seq<int>, i: int) -> bool {
    &&& 0 <= i < s.len()
    &&& forall|j: int| 0 <= j < s.len() ==> #[trigger] s[j] <= s[i]
    &&& forall|j: int| 0 <= j < i ==> #[trigger] s[j] < s[i]
}

/// The pieces of text joined, with `, ` between each two.
pub open spec fn joined(items: Seq<Seq<char>>) -> Seq<char>
    decreases items.len(),
{
    if items.len() == 0 {
        Seq::empty()
    } else if items.len() == 1 {
        items[0]
    } else {
        joined(items.drop_last()) + seq![',', ' '] + items.last()
    }
}

/// Appends `piece` to `out`, after `, ` unless it is the first of a list.
fn push_item(out: &mut String, first: bool, piece: &str)
    ensures
        final(out)@ == old(out)@ + (if first { Seq::empty() } else { seq![',', ' '] }) + piece@,
{
    if !first {
        out.append(", ");
        proof {
            reveal_strlit(", ");
        }
    }
    out.append(piece);
    assert(final(out)@ =~= old(out)@ + (if first { Seq::empty() } else { seq![',', ' '] }) + piece@);
}

/// A copy of the elements `start..end` of `v`.
fn copy_range<E: Copy>(v: &Vec<E>, start: usize, end: usize) -> (r: Vec<E>)
    requires
        start <= end <= v.len(),
    ensures
        r@ == v@.subrange(start as int, end as int),
{
    let mut r: Vec<E> = Vec::new();
    let mut i: usize = start;
    while i < end
        invariant
            start <= i <= end <= v.len(),
            r@ == v@.subrange(start as int, i as int),
        decreases end - i,
    {
        r.push(v[i]);
        i += 1;
        assert(r@ =~= v@.subrange(start as int, i as int));
    }
    r
}

impl<T: NumericElement> Data<T> {
    /// The integers that the elements stand for, in order.
    pub open spec fn values(self) -> Seq<int> {
        values_of(self.data@)
    }

    /// Makes a buffer of the given elements and shape, as they are.
    pub fn new(data: Vec<T>, shape: Vec<usize>) -> (r: Self)
        ensures
            r.data == data,
            r.shape == shape,
    {
        Data { data, shape }
    }

    /// Hands the buffer on unchanged.
    pub fn send(self) -> (r: Self)
        ensures
            r == self,
    {
        self
    }

    /// Appends an element at the end; the shape is left as it is.
    pub fn push(&mut self, value: T)
        ensures
            final(self).data@ == old(self).data@.push(value),
            final(self).shape == old(self).shape,
    {
        self.data.push(value);
    }

    /// Appends an element at the end; the same as `push`.
    pub fn add(&mut self, value: T)
        ensures
            final(self).data@ == old(self).data@.push(value),
            final(self).shape == old(self).shape,
    {
        self.push(value);
    }

    /// The element at `index`, if there is one.
    pub fn get(&self, index: usize) -> (r: Option<&T>)
        ensures
            index < self.data.len() ==> r == Some(&self.data@[index as int]),
            index >= self.data.len() ==> r is None,
    {
        if index < self.data.len() {
            Some(&self.data[index])
        } else {
            None
        }
    }

    /// The number of elements.
    pub fn length(&self) -> (r: usize)
        ensures
            r == self.data.len(),
    {
        self.data.len()
    }

    /// The number of elements, as `length` gives it; the shape descriptor is
    /// the field `shape`.
    pub fn shape(&self) -> (r: usize)
        ensures
            r == self.data.len(),
    {
        self.length()
    }

    /// Every running total of the sum of the elements can be held by `T`.
    pub open spec fn sum_held(self) -> bool {
        partial_sums_held::<T>(self.values())
    }

    /// The sum of the elements from left to right, starting at zero.
    pub fn sum(&self) -> (r: T)
        requires
            self.sum_held(),
        ensures
            r.value() == sum_of(self.values()),
    {
        let ghost s = self.values();
        let mut acc = T::zero();
        let mut i: usize = 0;
        while i < self.data.len()
            invariant
                i <= self.data.len(),
                s == self.values(),
                self.sum_held(),
                acc.value() == sum_of(s.take(i as int)),
            decreases self.data.len() - i,
        {
            assert(s.take(i + 1).drop_last() =~= s.take(i as int));
            assert(T::holds(sum_of(s.take(i + 1))));
            acc = acc.plus(&self.data[i]);
            i += 1;
        }
        assert(s.take(i as int) =~= s);
        acc
    }

    /// The sum divided by the number of elements, rounded toward zero; fails
    /// on an empty buffer.
    pub fn mean(&self) -> (r: Result<T, DataError>)
        requires
            self.sum_held(),
            T::holds(self.data.len() as int),
        ensures
            self.data.len() == 0 <==> r == Err::<T, DataError>(DataError::EmptyBufferReduction),
            self.data.len() > 0 ==> (r matches Ok(m) && m.value() == trunc_quotient(
                sum_of(self.values()),
                self.data.len() as int,
            )),
    {
        if self.data.len() == 0 {
            return Err(DataError::EmptyBufferReduction);
        }
        let total = self.sum();
        let count = T::from_count(self.data.len());
        Ok(total.divided_by(&count))
    }

    /// The first least element, or `None` when the buffer is empty.
    pub fn min(&self) -> (r: Option<&T>)
        ensures
            self.data.len() == 0 <==> r is None,
            r matches Some(m) ==> exists|i: int|
                is_first_least(self.values(), i) && self.data@[i] == *m,
            r matches Some(m) ==> forall|j: int|
                0 <= j < self.data.len() ==> m.value() <= #[trigger] self.data@[j].value(),
    {
        if self.data.len() == 0 {
            return None;
        }
        let ghost s = self.values();
        let mut best: usize = 0;
        let mut i: usize = 1;
        while i < self.data.len()
            invariant
                1 <= i <= self.data.len(),
                s == self.values(),
                is_first_least(s.take(i as int), best as int),
            decreases self.data.len() - i,
        {
            if self.data[i].less_than(&self.data[best]) {
                best = i;
            }
            i += 1;
            assert(is_first_least(s.take(i as int), best as int));
        }
        assert(s.take(i as int) =~= s);
        assert(is_first_least(s, best as int));
        assert forall|j: int| 0 <= j < self.data.len() implies s[best as int] <= self.data@[j].value() by {
            assert(s[j] == self.data@[j].value());
        }
        Some(&self.data[best])
    }

    /// The first greatest element, or `None` when the buffer is empty.
    pub fn max(&self) -> (r: Option<&T>)
        ensures
            self.data.len() == 0 <==> r is None,
            r matches Some(m) ==> exists|i: int|
                is_first_greatest(self.values(), i) && self.data@[i] == *m,
            r matches Some(m) ==> forall|j: int|
                0 <= j < self.data.len() ==> #[trigger] self.data@[j].value() <= m.value(),
    {
        if self.data.len() == 0 {
            return None;
        }
        let ghost s = self.values();
        let mut best: usize = 0;
        let mut i: usize = 1;
        while i < self.data.len()
            invariant
                1 <= i <= self.data.len(),
                s == self.values(),
                is_first_greatest(s.take(i as int), best as int),
            decreases self.data.len() - i,
        {
            if self.data[best].less_than(&self.data[i]) {
                best = i;
            }
            i += 1;
            assert(is_first_greatest(s.take(i as int), best as int));
        }
        assert(s.take(i as int) =~= s);
        assert(is_first_greatest(s, best as int));
        assert forall|j: int| 0 <= j < self.data.len() implies self.data@[j].value() <= s[best as int] by {
            assert(s[j] == self.data@[j].value());
        }
        Some(&self.data[best])
    }

    /// The decimal forms of the elements, in order.
    pub open spec fn element_texts(self) -> Seq<Seq<char>> {
        self.values().map_values(|v: int| signed_decimal(v))
    }

    /// The decimal forms of the shape's dimensions, in order.
    pub open spec fn shape_texts(self) -> Seq<Seq<char>> {
        self.shape@.map_values(|n: usize| decimal(n as nat))
    }

    /// The text of a buffer: its elements, then its shape, each as a
    /// bracketed list.
    pub open spec fn rendering(self) -> Seq<char> {
        "Data: ["@ + joined(self.element_texts()) + "] , Shape: ["@ + joined(self.shape_texts())
            + "]"@
    }

    /// Renders the buffer as `Data: [e0, e1, ...] , Shape: [s0, s1, ...]`.
    pub fn render(&self) -> (r: String)
        ensures
            r@ == self.rendering(),
    {
        let mut out = String::new();
        out.append("Data: [");
        let ghost head = out@;
        let ghost texts = self.element_texts();
        let mut i: usize = 0;
        while i < self.data.len()
            invariant
                i <= self.data.len(),
                texts == self.element_texts(),
                out@ == head + joined(texts.take(i as int)),
            decreases self.data.len() - i,
        {
            let piece = self.data[i].render();
            push_item(&mut out, i == 0, piece.as_str());
            assert(texts.take(i + 1).drop_last() =~= texts.take(i as int));
            i += 1;
        }
        assert(texts.take(i as int) =~= texts);
        out.append("] , Shape: [");
        let ghost middle = out@;
        let ghost dims = self.shape_texts();
        let mut k: usize = 0;
        while k < self.shape.len()
            invariant
                k <= self.shape.len(),
                dims == self.shape_texts(),
                out@ == middle + joined(dims.take(k as int)),
            decreases self.shape.len() - k,
        {
            let mut piece = String::new();
            push_decimal(&mut piece, self.shape[k] as u64);
            push_item(&mut out, k == 0, piece.as_str());
            assert(dims.take(k + 1).drop_last() =~= dims.take(k as int));
            k += 1;
        }
        assert(dims.take(k as int) =~= dims);
        out.append("]");
        assert(out@ =~= self.rendering());
        out
    }

    /// Computes the dot product of the two buffers' elements, a sum of
    /// elementwise products from left to right starting at zero; fails when
    /// their lengths differ.
    pub fn dot(&self, other: &Self) -> (r: Result<T, DataError>)
        requires
            self.data.len() == other.data.len() ==> dot_held::<T>(self.values(), other.values()),
        ensures
            self.data.len() != other.data.len() <==> r == Err::<T, DataError>(
                DataError::LengthMismatch,
            ),
            r matches Ok(v) ==> v.value() == dot_of(self.values(), other.values()),
            self.data.len() == other.data.len() ==> r is Ok,
    {
        if self.data.len() != other.data.len() {
            return Err(DataError::LengthMismatch);
        }
        let ghost p = products(self.values(), other.values());
        let mut acc = T::zero();
        let mut i: usize = 0;
        while i < self.data.len()
            invariant
                i <= self.data.len() == other.data.len(),
                p == products(self.values(), other.values()),
                dot_held::<T>(self.values(), other.values()),
                acc.value() == sum_of(p.take(i as int)),
            decreases self.data.len() - i,
        {
            assert(T::holds(self.values()[i as int] * other.values()[i as int]));
            let term = self.data[i].times(&other.data[i]);
            assert(p.take(i + 1).drop_last() =~= p.take(i as int));
            assert(T::holds(sum_of(p.take(i + 1))));
            acc = acc.plus(&term);
            i += 1;
        }
        assert(p.take(i as int) =~= p);
        Ok(acc)
    }

    /// Copies the elements `start..end` into a new buffer with the same
    /// shape; fails when `start > end` or `end` is past the length.
    pub fn slice(&self, start: usize, end: usize) -> (r: Result<Self, DataError>)
        ensures
            (start > end || end > self.data.len()) ==> r == Err::<Self, DataError>(
                DataError::InvalidSliceRange,
            ),
            start <= end <= self.data.len() ==> (r matches Ok(d) && {
                &&& d.data@ == self.data@.subrange(start as int, end as int)
                &&& d.data.len() == end - start
                &&& d.shape@ == self.shape@
            }),
    {
        if start > end || end > self.data.len() {
            return Err(DataError::InvalidSliceRange);
        }
        Ok(Data { data: copy_range(&self.data, start, end), shape: copy_range(&self.shape, 0, self.shape.len()) })
    }

    /// Sets the number of elements to `new_len`: extra elements are dropped
    /// from the end, missing ones are added as zeros. The shape is left as
    /// it is. Fails, changing nothing, when `new_len` is zero.
    pub fn reshape(&mut self, new_len: usize) -> (r: Result<(), DataError>)
        ensures
            new_len == 0 ==> r == Err::<(), DataError>(DataError::ZeroLengthReshape) && *final(self) == *old(self),
            new_len > 0 ==> {
                &&& r == Ok::<(), DataError>(())
                &&& final(self).values() == resized(old(self).values(), new_len as nat)
                &&& final(self).data.len() == new_len
                &&& new_len <= old(self).data.len() ==> final(self).data@ == old(self).data@.take(new_len as int)
                &&& new_len > old(self).data.len() ==> final(self).data@.take(old(self).data.len() as int) == old(self).data@
                &&& final(self).shape == old(self).shape
            },
    {
        if new_len == 0 {
            return Err(DataError::ZeroLengthReshape);
        }
        self.data.truncate(new_len);
        let ghost kept = self.data@;
        let zero = T::zero();
        while self.data.len() < new_len
            invariant
                kept.len() <= self.data.len() <= new_len,
                self.data@.take(kept.len() as int) == kept,
                forall|j: int| kept.len() <= j < self.data.len() ==> #[trigger] self.data@[j].value() == 0,
                zero.value() == 0,
                self.shape == old(self).shape,
                kept == if new_len <= old(self).data.len() {
                    old(self).data@.take(new_len as int)
                } else {
                    old(self).data@
                },
            decreases new_len - self.data.len(),
        {
            self.data.push(zero);
            assert(self.data@.take(kept.len() as int) =~= kept);
        }
        proof {
            if new_len <= old(self).data.len() {
                assert(self.data@ =~= kept);
            }
        }
        assert(self.values() =~= resized(old(self).values(), new_len as nat));
        Ok(())
    }
}

} // verus!
