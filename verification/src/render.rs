use vstd::prelude::*;
use vstd::string::StringExecFns;

use crate::RangeVec;

verus! {

/// The decimal digit character for `d`.
pub open spec fn spec_digit(d: int) -> char {
    if d == 0 {
        '0'
    } else if d == 1 {
        '1'
    } else if d == 2 {
        '2'
    } else if d == 3 {
        '3'
    } else if d == 4 {
        '4'
    } else if d == 5 {
        '5'
    } else if d == 6 {
        '6'
    } else if d == 7 {
        '7'
    } else if d == 8 {
        '8'
    } else {
        '9'
    }
}

/// The decimal rendering of `n`, most significant digit first.
pub open spec fn spec_decimal(n: int) -> Seq<char>
    decreases n,
{
    if n < 10 {
        seq![spec_digit(n)]
    } else {
        spec_decimal(n / 10).push(spec_digit(n % 10))
    }
}

/// The rendered elements joined by a comma and a space.
pub open spec fn join_elems(ss: Seq<Seq<char>>) -> Seq<char>
    decreases ss.len(),
{
    if ss.len() == 0 {
        Seq::empty()
    } else if ss.len() == 1 {
        ss[0]
    } else {
        join_elems(ss.drop_last()) + ", "@ + ss.last()
    }
}

/// Appends the single decimal digit `d` to `s`.
fn push_digit(s: &mut String, d: usize)
    requires
        d < 10,
    ensures
        final (s)@ == old(s)@ + seq![spec_digit(d as int)],
{
    let lit = if d == 0 {
        "0"
    } else if d == 1 {
        "1"
    } else if d == 2 {
        "2"
    } else if d == 3 {
        "3"
    } else if d == 4 {
        "4"
    } else if d == 5 {
        "5"
    } else if d == 6 {
        "6"
    } else if d == 7 {
        "7"
    } else if d == 8 {
        "8"
    } else {
        "9"
    };
    proof {
        reveal_strlit("0");
        reveal_strlit("1");
        reveal_strlit("2");
        reveal_strlit("3");
        reveal_strlit("4");
        reveal_strlit("5");
        reveal_strlit("6");
        reveal_strlit("7");
        reveal_strlit("8");
        reveal_strlit("9");
        assert(lit@ =~= seq![spec_digit(d as int)]);
    }
    s.append(lit);
}

/// Appends the decimal rendering of `n` to `s`.
fn push_decimal(s: &mut String, n: usize)
    ensures
        final (s)@ == old(s)@ + spec_decimal(n as int),
    decreases n,
{
    if n >= 10 {
        push_decimal(s, n / 10);
        push_digit(s, n % 10);
        proof {
            assert(final (s)@ =~= old(s)@ + spec_decimal(n as int));
        }
    } else {
        push_digit(s, n);
    }
}

impl<T: Copy + PartialEq + Default> RangeVec<T> {
    /// The full rendering of a non-empty store, given the rendered elements.
    pub open spec fn display_spec(start: int, end: int, ss: Seq<Seq<char>>) -> Seq<char> {
        "RangeVec { range: "@ + spec_decimal(start) + ".."@ + spec_decimal(end) + ", data: ["@
            + join_elems(ss) + "] }"@
    }

    /// Holds when `out_chars` is an output that `fmt_elem` may produce for
    /// the value at index `i`.
    pub open spec fn renders_to<F: Fn(T) -> String>(
        self,
        fmt_elem: F,
        i: int,
        out_chars: Seq<char>,
    ) -> bool {
        exists|out: String|
            #[trigger] call_ensures(fmt_elem, (self.spec_get(i),), out) && out@ == out_chars
    }

    /// Holds when each entry of `ss` is an output that `fmt_elem` may
    /// produce for the value at the corresponding index, starting at `start`.
    pub open spec fn rendered_elems<F: Fn(T) -> String>(
        self,
        fmt_elem: F,
        start: int,
        ss: Seq<Seq<char>>,
    ) -> bool {
        forall|k: int|
            #![trigger ss[k]]
            0 <= k < ss.len() ==> self.renders_to(fmt_elem, start + k, ss[k])
    }

    /// Extending a sequence of admissible renderings by one more admissible
    /// rendering keeps it admissible.
    proof fn lemma_rendered_push<F: Fn(T) -> String>(
        self,
        fmt_elem: F,
        start: int,
        ss: Seq<Seq<char>>,
        out: String,
    )
        requires
            self.rendered_elems(fmt_elem, start, ss),
            call_ensures(fmt_elem, (self.spec_get(start + ss.len()),), out),
        ensures
            self.rendered_elems(fmt_elem, start, ss.push(out@)),
    {
        assert forall|k: int|
            #![trigger ss.push(out@)[k]]
            0 <= k < ss.push(out@).len() implies self.renders_to(
            fmt_elem,
            start + k,
            ss.push(out@)[k],
        ) by {
            if k < ss.len() {
                assert(ss.push(out@)[k] == ss[k]);
            } else {
                assert(ss.push(out@)[k] == out@);
                assert(self.renders_to(fmt_elem, start + k, out@)) by {
                    assert(call_ensures(fmt_elem, (self.spec_get(start + k),), out));
                }
            }
        }
    }

    /// Renders the store for display: `"RangeVec { <empty> }"` when every
    /// index holds the default value, otherwise the covering range and the
    /// stored values, each rendered by `fmt_elem`, in index order.
    pub fn to_display_string<F: Fn(T) -> String>(&self, fmt_elem: F) -> (r: String)
        requires
            self.wf(),
            forall|x: T| #[trigger] call_requires(fmt_elem, (x,)),
        ensures
            self.spec_range() is None ==> r@ == "RangeVec { <empty> }"@,
            self.spec_range() matches Some(rng) ==> exists|ss: Seq<Seq<char>>|
                #![trigger Self::display_spec(rng.start as int, rng.end as int, ss)]
                ss.len() == rng.end - rng.start && self.rendered_elems(
                    fmt_elem,
                    rng.start as int,
                    ss,
                ) && r@ == Self::display_spec(rng.start as int, rng.end as int, ss),
    {
        let n = self.range_size();
        if n == 0 {
            return String::from_str("RangeVec { <empty> }");
        }
        let rng = self.range().unwrap();
        let mut s = String::new();
        s.append("RangeVec { range: ");
        push_decimal(&mut s, rng.start);
        s.append("..");
        push_decimal(&mut s, rng.end);
        s.append(", data: [");
        let ghost header = s@;
        let ghost mut ss: Seq<Seq<char>> = Seq::empty();
        let mut k: usize = 0;
        while k < n
            invariant
                k <= n,
                self.wf(),
                self.spec_range() matches Some(r2) && r2.start == rng.start && r2.end == rng.end
                    && n == rng.end - rng.start,
                forall|x: T| #[trigger] call_requires(fmt_elem, (x,)),
                ss.len() == k,
                self.rendered_elems(fmt_elem, rng.start as int, ss),
                s@ == header + join_elems(ss),
            decreases n - k,
        {
            if k > 0 {
                s.append(", ");
            }
            let idx = rng.start + k;
            let xv = *self.get(idx);
            let rendered = fmt_elem(xv);
            s.append(rendered.as_str());
            proof {
                let prev_ss = ss;
                self.lemma_rendered_push(fmt_elem, rng.start as int, prev_ss, rendered);
                ss = ss.push(rendered@);
                assert(ss.drop_last() =~= prev_ss);
                assert(ss.last() == rendered@);
                if k == 0 {
                    assert(join_elems(ss) == ss[0]);
                    assert(s@ =~= header + join_elems(ss));
                } else {
                    assert(join_elems(ss) == join_elems(prev_ss) + ", "@ + rendered@);
                    assert(s@ =~= header + join_elems(ss));
                }
            }
            k += 1;
        }
        s.append("] }");
        proof {
            assert(s@ =~= Self::display_spec(rng.start as int, rng.end as int, ss));
        }
        s
    }
}

} // verus!
