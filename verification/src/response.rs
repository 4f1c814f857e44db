use vstd::prelude::*;

verus! {

/// One header entry as the specification sees it: a name together with
/// the ordered sequence of values received for that name.
pub type HeaderEntry = (Seq<char>, Seq<Seq<char>>);

/// The specification view of one stored header entry.
pub open spec fn entry_view(e: (String, Vec<String>)) -> HeaderEntry {
    (e.0@, e.1.deep_view())
}

/// The specification view of the whole header table, entries in
/// first-appearance order of their names.
pub open spec fn hdrs_view_of(h: Seq<(String, Vec<String>)>) -> Seq<HeaderEntry> {
    h.map(|i: int, e: (String, Vec<String>)| entry_view(e))
}

/// No two entries of the table carry the same name.
pub open spec fn unique_names(h: Seq<HeaderEntry>) -> bool {
    forall|i: int, j: int|
        #![trigger h[i].0, h[j].0]
        0 <= i < h.len() && 0 <= j < h.len() && i != j ==> h[i].0 != h[j].0
}

/// Some entry of the table carries this name.
pub open spec fn has_name(h: Seq<HeaderEntry>, name: Seq<char>) -> bool {
    exists|i: int| 0 <= i < h.len() && #[trigger] h[i].0 == name
}

/// All values recorded under `name`, in entry order; with unique names
/// this is exactly the value list of the one entry carrying `name`.
pub open spec fn values_of(h: Seq<HeaderEntry>, name: Seq<char>) -> Seq<Seq<char>>
    decreases h.len(),
{
    if h.len() == 0 {
        Seq::empty()
    } else if h[0].0 == name {
        h[0].1 + values_of(h.drop_first(), name)
    } else {
        values_of(h.drop_first(), name)
    }
}

/// What one `add_header` call does to the table: the value joins the
/// first entry carrying the name, or a fresh single-value entry is
/// appended at the end.
pub open spec fn add_header_model(
    h: Seq<HeaderEntry>,
    name: Seq<char>,
    val: Seq<char>,
) -> Seq<HeaderEntry>
    decreases h.len(),
{
    if h.len() == 0 {
        seq![(name, seq![val])]
    } else if h[0].0 == name {
        seq![(h[0].0, h[0].1.push(val))] + h.drop_first()
    } else {
        seq![h[0]] + add_header_model(h.drop_first(), name, val)
    }
}

/// `values_of` distributes over concatenation of tables.
proof fn lemma_values_concat(a: Seq<HeaderEntry>, b: Seq<HeaderEntry>, name: Seq<char>)
    ensures
        values_of(a + b, name) == values_of(a, name) + values_of(b, name),
    decreases a.len(),
{
    if a.len() == 0 {
        assert(a + b =~= b);
        assert(values_of(a, name) + values_of(b, name) =~= values_of(b, name));
    } else {
        assert((a + b)[0] == a[0]);
        assert((a + b).drop_first() =~= a.drop_first() + b);
        lemma_values_concat(a.drop_first(), b, name);
        if a[0].0 == name {
            assert(values_of(a + b, name) == a[0].1 + (values_of(a.drop_first(), name)
                + values_of(b, name)));
            assert(a[0].1 + (values_of(a.drop_first(), name) + values_of(b, name)) =~= (a[0].1
                + values_of(a.drop_first(), name)) + values_of(b, name));
        }
    }
}

/// A table with no entry for `name` records no values for it.
proof fn lemma_values_absent(h: Seq<HeaderEntry>, name: Seq<char>)
    requires
        forall|j: int| 0 <= j < h.len() ==> #[trigger] h[j].0 != name,
    ensures
        values_of(h, name) == Seq::<Seq<char>>::empty(),
    decreases h.len(),
{
    if h.len() > 0 {
        assert(h[0].0 != name);
        assert(forall|j: int|
            0 <= j < h.drop_first().len() ==> #[trigger] h.drop_first()[j].0 != name);
        lemma_values_absent(h.drop_first(), name);
    }
}

/// The values a one-entry table records under a name.
proof fn lemma_values_single(e: HeaderEntry, name: Seq<char>)
    ensures
        e.0 == name ==> values_of(seq![e], name) == e.1,
        e.0 != name ==> values_of(seq![e], name) == Seq::<Seq<char>>::empty(),
{
    let s = seq![e];
    assert(s.drop_first() =~= Seq::<HeaderEntry>::empty());
    assert(values_of(s.drop_first(), name) == Seq::<Seq<char>>::empty());
    if e.0 == name {
        assert(e.1 + Seq::<Seq<char>>::empty() =~= e.1);
    }
}

/// When the first entry for `name` stands at index `i`, `add_header`
/// extends exactly that entry's value list.
proof fn lemma_model_found(h: Seq<HeaderEntry>, name: Seq<char>, val: Seq<char>, i: int)
    requires
        0 <= i < h.len(),
        h[i].0 == name,
        forall|j: int| 0 <= j < i ==> #[trigger] h[j].0 != name,
    ensures
        add_header_model(h, name, val) == h.update(i, (name, h[i].1.push(val))),
    decreases i,
{
    if i == 0 {
        assert(add_header_model(h, name, val) =~= h.update(0, (name, h[0].1.push(val))));
    } else {
        assert(h[0].0 != name);
        let t = h.drop_first();
        assert(t[i - 1] == h[i]);
        assert(forall|j: int| 0 <= j < i - 1 ==> #[trigger] t[j].0 != name);
        lemma_model_found(t, name, val, i - 1);
        assert(seq![h[0]] + t.update(i - 1, (name, t[i - 1].1.push(val))) =~= h.update(
            i,
            (name, h[i].1.push(val)),
        ));
    }
}

/// When no entry carries `name`, `add_header` appends a fresh entry.
proof fn lemma_model_absent(h: Seq<HeaderEntry>, name: Seq<char>, val: Seq<char>)
    requires
        forall|j: int| 0 <= j < h.len() ==> #[trigger] h[j].0 != name,
    ensures
        add_header_model(h, name, val) == h.push((name, seq![val])),
    decreases h.len(),
{
    if h.len() == 0 {
        assert(add_header_model(h, name, val) =~= h.push((name, seq![val])));
    } else {
        assert(h[0].0 != name);
        let t = h.drop_first();
        assert(forall|j: int| 0 <= j < t.len() ==> #[trigger] t[j].0 != name);
        lemma_model_absent(t, name, val);
        assert(seq![h[0]] + t.push((name, seq![val])) =~= h.push((name, seq![val])));
    }
}

/// Adding a header keeps the names of the table unique.
pub proof fn lemma_add_header_wf(h: Seq<HeaderEntry>, name: Seq<char>, val: Seq<char>)
    requires
        unique_names(h),
    ensures
        unique_names(add_header_model(h, name, val)),
{
    if has_name(h, name) {
        let i = choose|i: int| 0 <= i < h.len() && #[trigger] h[i].0 == name;
        assert(forall|j: int| 0 <= j < i ==> #[trigger] h[j].0 != name);
        lemma_model_found(h, name, val, i);
        let m = h.update(i, (name, h[i].1.push(val)));
        assert(forall|k: int| 0 <= k < m.len() ==> #[trigger] m[k].0 == h[k].0);
        assert(unique_names(m));
    } else {
        assert(forall|j: int| 0 <= j < h.len() ==> #[trigger] h[j].0 != name);
        lemma_model_absent(h, name, val);
        let m = h.push((name, seq![val]));
        assert(forall|k: int| 0 <= k < h.len() ==> #[trigger] m[k].0 == h[k].0);
        assert(unique_names(m));
    }
}

/// The accumulation law of one `add_header` step: the new value is
/// appended to the list recorded under its name, and every other name
/// keeps its values unchanged.
pub proof fn lemma_add_header_values(
    h: Seq<HeaderEntry>,
    name: Seq<char>,
    val: Seq<char>,
    other: Seq<char>,
)
    requires
        unique_names(h),
    ensures
        values_of(add_header_model(h, name, val), name) == values_of(h, name).push(val),
        other != name ==> values_of(add_header_model(h, name, val), other) == values_of(
            h,
            other,
        ),
{
    if has_name(h, name) {
        let i = choose|i: int| 0 <= i < h.len() && #[trigger] h[i].0 == name;
        assert(forall|j: int| 0 <= j < i ==> #[trigger] h[j].0 != name);
        lemma_model_found(h, name, val, i);
        let e2: HeaderEntry = (name, h[i].1.push(val));
        let m = h.update(i, e2);
        let pre = h.take(i);
        let post = h.skip(i + 1);
        assert(h =~= pre + (seq![h[i]] + post));
        assert(m =~= pre + (seq![e2] + post));
        lemma_values_concat(pre, seq![h[i]] + post, name);
        lemma_values_concat(seq![h[i]], post, name);
        lemma_values_concat(pre, seq![e2] + post, name);
        lemma_values_concat(seq![e2], post, name);
        assert(forall|j: int| 0 <= j < pre.len() ==> #[trigger] pre[j].0 != name);
        lemma_values_absent(pre, name);
        assert(forall|j: int| 0 <= j < post.len() ==> #[trigger] post[j].0 != name) by {
            assert(forall|j: int|
                0 <= j < post.len() ==> #[trigger] post[j].0 == h[i + 1 + j].0);
        }
        lemma_values_absent(post, name);
        lemma_values_single(h[i], name);
        lemma_values_single(e2, name);
        assert(values_of(seq![h[i]], name) =~= h[i].1);
        assert(values_of(seq![e2], name) =~= h[i].1.push(val));
        assert(values_of(h, name) =~= h[i].1);
        assert(values_of(m, name) =~= h[i].1.push(val));
        if other != name {
            lemma_values_concat(pre, seq![h[i]] + post, other);
            lemma_values_concat(seq![h[i]], post, other);
            lemma_values_concat(pre, seq![e2] + post, other);
            lemma_values_concat(seq![e2], post, other);
            lemma_values_single(h[i], other);
            lemma_values_single(e2, other);
            assert(values_of(seq![h[i]], other) =~= values_of(seq![e2], other));
            assert(values_of(m, other) =~= values_of(h, other));
        }
    } else {
        assert(forall|j: int| 0 <= j < h.len() ==> #[trigger] h[j].0 != name);
        lemma_model_absent(h, name, val);
        let e2: HeaderEntry = (name, seq![val]);
        let m = h.push(e2);
        assert(m =~= h + seq![e2]);
        lemma_values_concat(h, seq![e2], name);
        lemma_values_absent(h, name);
        lemma_values_single(e2, name);
        assert(values_of(seq![e2], name) =~= seq![val]);
        assert(values_of(h, name).push(val) =~= seq![val]);
        if other != name {
            lemma_values_concat(h, seq![e2], other);
            lemma_values_single(e2, other);
            assert(values_of(seq![e2], other) =~= Seq::<Seq<char>>::empty());
            assert(values_of(m, other) =~= values_of(h, other));
        }
    }
}

/// Mutable accumulator for one transfer: status code, multi-valued
/// header table, and body bytes, finalized once into a [`Response`].
pub struct ResponseBuilder {
    pub code: u64,
    pub hdrs: Vec<(String, Vec<String>)>,
    pub body: Vec<u8>,
}

/// Immutable result of one successful transfer.
pub struct Response {
    pub code: u64,
    pub hdrs: Vec<(String, Vec<String>)>,
    pub body: Vec<u8>,
}

impl Response {
    pub open spec fn hdrs_view(&self) -> Seq<HeaderEntry> {
        hdrs_view_of(self.hdrs@)
    }

    pub open spec fn wf(&self) -> bool {
        unique_names(self.hdrs_view())
    }

    pub fn new(code: u64, hdrs: Vec<(String, Vec<String>)>, body: Vec<u8>) -> (r: Response)
        requires
            unique_names(hdrs_view_of(hdrs@)),
        ensures
            r.code == code,
            r.hdrs@ == hdrs@,
            r.body@ == body@,
            r.wf(),
    {
        Response { code, hdrs, body }
    }
}

impl ResponseBuilder {
    pub open spec fn hdrs_view(&self) -> Seq<HeaderEntry> {
        hdrs_view_of(self.hdrs@)
    }

    pub open spec fn wf(&self) -> bool {
        unique_names(self.hdrs_view())
    }

    /// A fresh builder: status unset (zero), no headers, empty body.
    pub fn new() -> (r: ResponseBuilder)
        ensures
            r.code == 0,
            r.hdrs_view() == Seq::<HeaderEntry>::empty(),
            r.body@ == Seq::<u8>::empty(),
            r.wf(),
    {
        let r = ResponseBuilder { code: 0, hdrs: Vec::new(), body: Vec::new() };
        proof {
            assert(r.hdrs_view() =~= Seq::<HeaderEntry>::empty());
        }
        r
    }

    /// Records one header value: appended to the value list of the
    /// entry already carrying `name`, or opening a fresh entry.
    pub fn add_header(&mut self, name: &str, val: &str)
        requires
            old(self).wf(),
        ensures
            final(self).wf(),
            final(self).code == old(self).code,
            final(self).body@ == old(self).body@,
            final(self).hdrs_view() == add_header_model(old(self).hdrs_view(), name@, val@),
    {
        proof {
            lemma_add_header_wf(old(self).hdrs_view(), name@, val@);
        }
        let owned_name = name.to_owned();
        let owned_val = val.to_owned();
        let n = self.hdrs.len();
        let mut i: usize = 0;
        while i < n
            invariant
                n == self.hdrs@.len(),
                i <= n,
                *self == *old(self),
                owned_name@ == name@,
                owned_val@ == val@,
                old(self).wf(),
                forall|j: int| 0 <= j < i ==> #[trigger] old(self).hdrs_view()[j].0 != name@,
            decreases n - i,
        {
            if self.hdrs[i].0 == owned_name {
                proof {
                    assert(old(self).hdrs_view()[i as int].0 == name@);
                    lemma_model_found(old(self).hdrs_view(), name@, val@, i as int);
                }
                self.hdrs[i].1.push(owned_val);
                proof {
                    let ghost e2 = self.hdrs@[i as int];
                    assert(e2.0 == old(self).hdrs@[i as int].0);
                    assert(e2.1@ == old(self).hdrs@[i as int].1@.push(owned_val));
                    assert(entry_view(e2).1 =~= entry_view(old(self).hdrs@[i as int]).1.push(
                        val@,
                    ));
                    assert(entry_view(e2) == (name@, old(self).hdrs_view()[i as int].1.push(
                        val@,
                    )));
                    assert(self.hdrs_view() =~= old(self).hdrs_view().update(
                        i as int,
                        entry_view(e2),
                    ));
                }
                return ;
            }
            proof {
                assert(old(self).hdrs_view()[i as int].0 == old(self).hdrs@[i as int].0@);
            }
            i += 1;
        }
        proof {
            lemma_model_absent(old(self).hdrs_view(), name@, val@);
        }
        let mut vals: Vec<String> = Vec::new();
        vals.push(owned_val);
        self.hdrs.push((owned_name, vals));
        proof {
            let ghost e2 = self.hdrs@.last();
            assert(entry_view(e2).1 =~= seq![val@]);
            assert(self.hdrs_view() =~= old(self).hdrs_view().push((name@, seq![val@])));
        }
    }

    /// Appends one chunk of body bytes, verbatim, at the end.
    pub fn append_body(&mut self, chunk: &Vec<u8>)
        ensures
            final(self).code == old(self).code,
            final(self).hdrs@ == old(self).hdrs@,
            final(self).body@ == old(self).body@ + chunk@,
    {
        let mut i: usize = 0;
        proof {
            assert(old(self).body@ + chunk@.subrange(0, 0) =~= old(self).body@);
        }
        while i < chunk.len()
            invariant
                i <= chunk@.len(),
                self.code == old(self).code,
                self.hdrs@ == old(self).hdrs@,
                self.body@ == old(self).body@ + chunk@.subrange(0, i as int),
            decreases chunk@.len() - i,
        {
            let b = chunk[i];
            self.body.push(b);
            proof {
                assert((old(self).body@ + chunk@.subrange(0, i as int)).push(b) =~= old(
                    self,
                ).body@ + chunk@.subrange(0, i as int + 1));
            }
            i += 1;
        }
        proof {
            assert(chunk@.subrange(0, chunk@.len() as int) =~= chunk@);
        }
    }

    /// Stores the status code the engine reported for the transfer.
    pub fn set_code(&mut self, code: u64)
        ensures
            final(self).code == code,
            final(self).hdrs@ == old(self).hdrs@,
            final(self).body@ == old(self).body@,
    {
        self.code = code;
    }

    /// Consumes the builder into the immutable response it accumulated.
    pub fn build(self) -> (r: Response)
        requires
            self.wf(),
        ensures
            r.code == self.code,
            r.hdrs@ == self.hdrs@,
            r.body@ == self.body@,
            r.wf(),
    {
        let ResponseBuilder { code, hdrs, body } = self;
        Response::new(code, hdrs, body)
    }
}

} // verus!
