use vstd::prelude::*;
use vstd::arithmetic::div_mod::{
    lemma_fundamental_div_mod, lemma_fundamental_div_mod_converse, lemma_mod_pos_bound,
};
use vstd::arithmetic::mul::lemma_mul_inequality;

verus! {

/// The number of batches that `len` tokens fill, at most `n` to a batch.
pub open spec fn batch_count(len: nat, n: nat) -> nat {
    if n == 0 {
        0
    } else {
        ((len + n - 1) / (n as int)) as nat
    }
}

/// The tokens of batch `j`: those from `j * n` up to the next multiple of `n`,
/// or to the end of the input.
pub open spec fn batch_at(s: Seq<String>, n: nat, j: int) -> Seq<String> {
    let start = j * n;
    let end = if start + n <= s.len() { start + n } else { s.len() as int };
    s.subrange(start, end)
}

/// The batches that the tokens `s` are split into, at most `n` to a batch.
pub open spec fn batches_of(s: Seq<String>, n: nat) -> Seq<Seq<String>> {
    Seq::new(batch_count(s.len(), n), |j: int| batch_at(s, n, j))
}

/// Groups tokens, in the order they arrive, into batches of at most
/// `max_args` tokens. A batch is handed out as soon as it is full; the tokens
/// left over at the end of the input form a last, shorter batch.
pub struct BatchBuilder {
    max_args: usize,
    buffer: Vec<String>,
}

impl View for BatchBuilder {
    type V = Seq<String>;

    /// The tokens taken in and not yet handed out in a batch.
    closed spec fn view(&self) -> Seq<String> {
        self.buffer@
    }
}

impl BatchBuilder {
    pub closed spec fn spec_max_args(&self) -> nat {
        self.max_args as nat
    }

    pub open spec fn wf(&self) -> bool {
        &&& 1 <= self.spec_max_args()
        &&& self@.len() < self.spec_max_args()
    }

    pub fn new(max_args: usize) -> (r: BatchBuilder)
        requires
            1 <= max_args,
        ensures
            r.wf(),
            r.spec_max_args() == max_args,
            r@ == Seq::<String>::empty(),
    {
        BatchBuilder { max_args, buffer: Vec::new() }
    }

    pub fn max_args(&self) -> (r: usize)
        ensures
            r == self.spec_max_args(),
    {
        self.max_args
    }

    /// Takes in the next token; hands out the batch that it completes, if any.
    pub fn push(&mut self, token: String) -> (r: Option<Vec<String>>)
        requires
            old(self).wf(),
        ensures
            final(self).wf(),
            final(self).spec_max_args() == old(self).spec_max_args(),
            old(self)@.len() + 1 == old(self).spec_max_args() ==> {
                &&& r matches Some(b) && b@ == old(self)@.push(token)
                &&& final(self)@ == Seq::<String>::empty()
            },
            old(self)@.len() + 1 < old(self).spec_max_args() ==> {
                &&& r is None
                &&& final(self)@ == old(self)@.push(token)
            },
    {
        self.buffer.push(token);
        if self.buffer.len() == self.max_args {
            let mut full: Vec<String> = Vec::new();
            std::mem::swap(&mut self.buffer, &mut full);
            Some(full)
        } else {
            None
        }
    }

    /// Ends the input: hands out the tokens still held, if there are any, as
    /// the last batch.
    pub fn finish(self) -> (r: Option<Vec<String>>)
        ensures
            self@.len() == 0 ==> r is None,
            self@.len() > 0 ==> (r matches Some(b) && b@ == self@),
    {
        if self.buffer.len() == 0 {
            None
        } else {
            Some(self.buffer)
        }
    }
}

proof fn lemma_batch_count(len: nat, n: nat, q: nat, rem: nat)
    requires
        1 <= n,
        rem < n,
        len == q * n + rem,
    ensures
        rem == 0 ==> batch_count(len, n) == q,
        rem > 0 ==> batch_count(len, n) == q + 1,
{
    if rem == 0 {
        lemma_fundamental_div_mod_converse(len + n - 1, n as int, q as int, n - 1);
    } else {
        assert((q + 1) * n == q * n + n) by (nonlinear_arith);
        lemma_fundamental_div_mod_converse(len + n - 1, n as int, q + 1 as int, rem - 1);
    }
}

/// Splits the whole token sequence into batches of at most `max_args` tokens.
pub fn build_batches(tokens: &Vec<String>, max_args: usize) -> (r: Vec<Vec<String>>)
    requires
        1 <= max_args,
    ensures
        r@.map_values(|b: Vec<String>| b@) == batches_of(tokens@, max_args as nat),
{
    let ghost s = tokens@;
    let ghost n: int = max_args as int;
    let mut out: Vec<Vec<String>> = Vec::new();
    let mut builder = BatchBuilder::new(max_args);
    let mut i: usize = 0;
    assert(0 * n == 0);
    while i < tokens.len()
        invariant
            s == tokens@,
            i <= s.len(),
            builder.wf(),
            builder.spec_max_args() as int == n,
            out@.len() as int * n + builder@.len() == i,
            builder@ == s.subrange(out@.len() as int * n, i as int),
            forall|j: int| 0 <= j < out@.len() ==> (#[trigger] out@[j])@ == s.subrange(j * n, j * n + n),
        decreases s.len() - i,
    {
        let ghost q: int = out@.len() as int;
        let ghost before = builder@;
        let token = tokens[i].clone();
        let emitted = builder.push(token);
        assert(s.subrange(q * n, i + 1) =~= before.push(s[i as int]));
        match emitted {
            Some(b) => {
                assert((q + 1) * n == q * n + n) by (nonlinear_arith);
                out.push(b);
                assert(builder@ =~= s.subrange((q + 1) * n, i + 1));
            },
            None => {},
        }
        i = i + 1;
    }
    let ghost q: int = out@.len() as int;
    let ghost full = out@;
    proof {
        lemma_batch_count(s.len(), n as nat, q as nat, builder@.len());
    }
    let last = builder.finish();
    match last {
        Some(b) => {
            out.push(b);
        },
        None => {},
    }
    let ghost got = out@.map_values(|b: Vec<String>| b@);
    let ghost want = batches_of(s, n as nat);
    assert(got.len() == want.len());
    assert forall|j: int| 0 <= j < got.len() implies got[j] == want[j] by {
        if j < q {
            assert(full[j] == out@[j]);
            lemma_mul_inequality(j + 1, q, n);
            assert((j + 1) * n == j * n + n) by (nonlinear_arith);
        } else {
            assert(j == q);
            assert(s.subrange(q * n, s.len() as int) =~= s.subrange(q * n, i as int));
        }
    }
    assert(got =~= want);
    out
}

/// Every batch but the last starts before the end of the input, and the
/// batches together reach it.
proof fn lemma_count_bounds(len: nat, n: nat)
    requires
        1 <= n,
    ensures
        batch_count(len, n) * n >= len,
        batch_count(len, n) > 0 ==> (batch_count(len, n) - 1) * n < len,
{
    let x = len + n - 1;
    let c = batch_count(len, n) as int;
    lemma_fundamental_div_mod(x, n as int);
    lemma_mod_pos_bound(x, n as int);
    assert(n * c == c * n) by (nonlinear_arith);
    assert((c - 1) * n == c * n - n) by (nonlinear_arith);
}

proof fn lemma_rejoin_prefix(s: Seq<String>, n: nat, k: int)
    requires
        1 <= n,
        0 <= k <= batch_count(s.len(), n),
    ensures
        batches_of(s, n).take(k).flatten() == s.subrange(
            0,
            if k * n <= s.len() { k * n } else { s.len() as int },
        ),
    decreases k,
{
    let bs = batches_of(s, n);
    if k == 0 {
        assert(bs.take(0) =~= Seq::<Seq<String>>::empty());
        assert(s.subrange(0, 0) =~= Seq::<String>::empty());
    } else {
        lemma_rejoin_prefix(s, n, k - 1);
        lemma_count_bounds(s.len(), n);
        lemma_mul_inequality(k - 1, batch_count(s.len(), n) - 1, n as int);
        assert(k * n == (k - 1) * n + n) by (nonlinear_arith);
        assert(bs.take(k) =~= bs.take(k - 1).push(bs[k - 1]));
        bs.take(k - 1).lemma_flatten_push(bs[k - 1]);
        let start = (k - 1) * n;
        let end = if k * n <= s.len() { k * n } else { s.len() as int };
        assert(s.subrange(0, start) + s.subrange(start, end) =~= s.subrange(0, end));
    }
}

/// Joining the batches back together, in order, gives the tokens exactly: none
/// is lost, repeated or moved.
pub proof fn lemma_batches_rejoin(s: Seq<String>, n: nat)
    requires
        1 <= n,
    ensures
        batches_of(s, n).flatten() == s,
{
    let c = batch_count(s.len(), n) as int;
    lemma_rejoin_prefix(s, n, c);
    lemma_count_bounds(s.len(), n);
    assert(batches_of(s, n).take(c) =~= batches_of(s, n));
    assert(s.subrange(0, s.len() as int) =~= s);
}

/// Every batch but the last holds exactly `n` tokens, the last holds from 1 to
/// `n`, and no batch is empty.
pub proof fn lemma_batch_sizes(s: Seq<String>, n: nat)
    requires
        1 <= n,
    ensures
        forall|j: int|
            0 <= j < batches_of(s, n).len() - 1 ==> (#[trigger] batches_of(s, n)[j]).len() == n,
        batches_of(s, n).len() > 0 ==> 1 <= batches_of(s, n).last().len() <= n,
        forall|j: int|
            0 <= j < batches_of(s, n).len() ==> (#[trigger] batches_of(s, n)[j]).len() >= 1,
{
    let c = batch_count(s.len(), n) as int;
    lemma_count_bounds(s.len(), n);
    assert forall|j: int| 0 <= j < c implies {
        &&& j * n < s.len()
        &&& (j < c - 1 ==> j * n + n <= s.len())
        &&& #[trigger] batch_at(s, n, j).len() >= 1
        &&& batch_at(s, n, j).len() <= n
    } by {
        lemma_mul_inequality(j, c - 1, n as int);
        if j < c - 1 {
            lemma_mul_inequality(j + 1, c - 1, n as int);
            assert((j + 1) * n == j * n + n) by (nonlinear_arith);
        }
    }
}

} // verus!
