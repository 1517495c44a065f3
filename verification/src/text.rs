//! Text helpers: splitting on a separator, decimal rendering and joining.
use vstd::prelude::*;
use vstd::string::StrSliceExecFns;
use vstd::string::StringExecFns;

verus! {

/// The views of a list of texts.
pub open spec fn texts_of(v: Seq<String>) -> Seq<Seq<char>> {
    v.map_values(|s: String| s@)
}

/// Puts `p` in front of the first field of `fields`.
pub open spec fn prepend_first(p: Seq<char>, fields: Seq<Seq<char>>) -> Seq<Seq<char>> {
    fields.update(0, p + fields[0])
}

/// The fields of `s` separated by `sep`, matched from the left without
/// overlap, as `str::split` with a string pattern produces them.
pub open spec fn split_on(s: Seq<char>, sep: Seq<char>) -> Seq<Seq<char>>
    decreases s.len(),
{
    if s.len() == 0 {
        seq![Seq::<char>::empty()]
    } else if sep.len() > 0 && sep.is_prefix_of(s) {
        seq![Seq::<char>::empty()] + split_on(s.skip(sep.len() as int), sep)
    } else {
        prepend_first(seq![s[0]], split_on(s.drop_first(), sep))
    }
}

/// `split_on` always yields at least one field.
pub proof fn lemma_split_nonempty(s: Seq<char>, sep: Seq<char>)
    ensures
        split_on(s, sep).len() >= 1,
    decreases s.len(),
{
    if s.len() == 0 {
    } else if sep.len() > 0 && sep.is_prefix_of(s) {
        lemma_split_nonempty(s.skip(sep.len() as int), sep);
    } else {
        lemma_split_nonempty(s.drop_first(), sep);
    }
}

/// Whether `sep` occurs in `s` starting at position `i`.
pub open spec fn occurs_at(s: Seq<char>, sep: Seq<char>, i: int) -> bool {
    0 <= i && i + sep.len() <= s.len() && s.subrange(i, i + sep.len()) == sep
}

/// Whether `sep` occurs anywhere in `s`.
pub open spec fn occurs_in(s: Seq<char>, sep: Seq<char>) -> bool {
    exists|i: int| #[trigger] occurs_at(s, sep, i)
}

proof fn lemma_prefix_occurs(s: Seq<char>, sep: Seq<char>)
    ensures
        sep.is_prefix_of(s) <==> occurs_at(s, sep, 0),
{
    if sep.is_prefix_of(s) {
        assert(s.subrange(0, sep.len() as int) =~= sep);
    }
    if occurs_at(s, sep, 0) {
        assert forall|j: int| 0 <= j < sep.len() implies sep[j] == s[j] by {
            assert(s.subrange(0, sep.len() as int)[j] == s[j]);
        }
    }
}

proof fn lemma_occurs_shift(s: Seq<char>, sep: Seq<char>, i: int)
    requires
        s.len() > 0,
        i >= 1,
    ensures
        occurs_at(s, sep, i) <==> occurs_at(s.drop_first(), sep, i - 1),
{
    if i + sep.len() <= s.len() {
        assert(s.subrange(i, i + sep.len()) =~= s.drop_first().subrange(i - 1, i - 1 + sep.len()));
    }
}

/// With no occurrence of `sep`, `s` is a single field.
pub proof fn lemma_split_no_occurrence(s: Seq<char>, sep: Seq<char>)
    requires
        sep.len() > 0,
        forall|i: int| !occurs_at(s, sep, i),
    ensures
        split_on(s, sep) == seq![s],
    decreases s.len(),
{
    if s.len() == 0 {
        assert(s =~= Seq::<char>::empty());
        assert(split_on(s, sep) =~= seq![s]);
    } else {
        lemma_prefix_occurs(s, sep);
        assert(!occurs_at(s, sep, 0));
        assert forall|i: int| !occurs_at(s.drop_first(), sep, i) by {
            if i >= 0 {
                lemma_occurs_shift(s, sep, i + 1);
            }
        }
        lemma_split_no_occurrence(s.drop_first(), sep);
        assert(!sep.is_prefix_of(s));
        assert(split_on(s, sep) == prepend_first(seq![s[0]], seq![s.drop_first()]));
        assert(seq![s[0]] + s.drop_first() =~= s);
        assert(split_on(s, sep) =~= seq![s]);
    }
}

/// Splitting at the first occurrence of `sep`, at position `k`.
pub proof fn lemma_split_first_occurrence(s: Seq<char>, sep: Seq<char>, k: int)
    requires
        sep.len() > 0,
        occurs_at(s, sep, k),
        forall|i: int| 0 <= i < k ==> !occurs_at(s, sep, i),
    ensures
        split_on(s, sep) == seq![s.take(k)] + split_on(s.skip(k + sep.len()), sep),
    decreases k,
{
    lemma_prefix_occurs(s, sep);
    if k == 0 {
        assert(s.take(0) =~= Seq::<char>::empty());
    } else {
        assert(!occurs_at(s, sep, 0));
        let t = s.drop_first();
        lemma_occurs_shift(s, sep, k);
        assert forall|i: int| 0 <= i < k - 1 implies !occurs_at(t, sep, i) by {
            lemma_occurs_shift(s, sep, i + 1);
        }
        lemma_split_first_occurrence(t, sep, k - 1);
        assert(t.skip(k - 1 + sep.len()) =~= s.skip(k + sep.len()));
        assert(seq![s[0]] + t.take(k - 1) =~= s.take(k));
        assert(split_on(s, sep) =~= seq![s.take(k)] + split_on(s.skip(k + sep.len()), sep));
    }
}

/// Splitting on a separator made of a single character.
pub open spec fn split_char(s: Seq<char>, c: char) -> Seq<Seq<char>> {
    split_on(s, seq![c])
}

proof fn lemma_occurs_single(s: Seq<char>, c: char, i: int)
    ensures
        occurs_at(s, seq![c], i) <==> (0 <= i < s.len() && s[i] == c),
{
    if 0 <= i < s.len() {
        if s[i] == c {
            assert(s.subrange(i, i + 1) =~= seq![c]);
        }
        if occurs_at(s, seq![c], i) {
            assert(s.subrange(i, i + 1)[0] == s[i]);
        }
    }
}

/// With no `c` in `s`, splitting on `c` gives `s` alone.
pub proof fn lemma_split_char_absent(s: Seq<char>, c: char)
    requires
        !s.contains(c),
    ensures
        split_char(s, c) == seq![s],
{
    assert forall|i: int| !occurs_at(s, seq![c], i) by {
        lemma_occurs_single(s, c, i);
        if 0 <= i < s.len() {
            assert(s.contains(s[i]));
        }
    }
    lemma_split_no_occurrence(s, seq![c]);
}

/// Splitting on `c` where `s` is `a`, `c`, `b` and `a` holds no `c`.
pub proof fn lemma_split_char_around(a: Seq<char>, c: char, b: Seq<char>)
    requires
        !a.contains(c),
    ensures
        split_char(a + seq![c] + b, c) == seq![a] + split_char(b, c),
{
    let s = a + seq![c] + b;
    let k = a.len() as int;
    lemma_occurs_single(s, c, k);
    assert forall|i: int| 0 <= i < k implies !occurs_at(s, seq![c], i) by {
        lemma_occurs_single(s, c, i);
        assert(s[i] == a[i]);
        assert(a.contains(a[i]));
    }
    lemma_split_first_occurrence(s, seq![c], k);
    assert(s.take(k) =~= a);
    assert(s.skip(k + 1) =~= b);
}

/// The characters of `s`, read one by one.
pub fn chars_of(s: &str) -> (out: Vec<char>)
    ensures
        out@ == s@,
{
    let n = s.unicode_len();
    let mut out: Vec<char> = Vec::new();
    let mut i: usize = 0;
    while i < n
        invariant
            n == s@.len(),
            i <= n,
            out@ == s@.take(i as int),
        decreases n - i,
    {
        out.push(s.get_char(i));
        proof {
            assert(s@.take(i as int).push(s@[i as int]) =~= s@.take(i + 1));
        }
        i = i + 1;
    }
    proof {
        assert(s@.take(n as int) =~= s@);
    }
    out
}

/// Whether `sep` occurs in `cs` at position `i`, computed.
fn matches_at(cs: &Vec<char>, sep: &Vec<char>, i: usize) -> (b: bool)
    requires
        i <= cs@.len(),
    ensures
        b == occurs_at(cs@, sep@, i as int),
{
    if sep.len() > cs.len() - i {
        return false;
    }
    let mut j: usize = 0;
    while j < sep.len()
        invariant
            cs@.len() <= usize::MAX,
            i + sep@.len() <= cs@.len(),
            j <= sep@.len(),
            forall|k: int| 0 <= k < j ==> cs@[i + k] == sep@[k],
        decreases sep@.len() - j,
    {
        if cs[i + j] != sep[j] {
            proof {
                assert(cs@.subrange(i as int, i + sep@.len())[j as int] == cs@[i + j]);
            }
            return false;
        }
        j = j + 1;
    }
    proof {
        assert(cs@.subrange(i as int, i + sep@.len()) =~= sep@);
    }
    true
}

/// The text of `s` between character positions `from` and `to`, owned.
fn piece(s: &str, from: usize, to: usize) -> (out: String)
    requires
        from <= to <= s@.len(),
    ensures
        out@ == s@.subrange(from as int, to as int),
{
    s.substring_char(from, to).to_owned()
}

/// The fields of `s` separated by `sep`, from the left and without overlap.
pub fn split(s: &str, sep: &str) -> (out: Vec<String>)
    requires
        sep@.len() > 0,
    ensures
        out@.map_values(|f: String| f@) == split_on(s@, sep@),
{
    let cs = chars_of(s);
    let sp = chars_of(sep);
    let n = cs.len();
    let mut out: Vec<String> = Vec::new();
    let mut start: usize = 0;
    let mut i: usize = 0;
    proof {
        lemma_split_nonempty(s@, sep@);
        assert(s@.skip(0) =~= s@);
        assert(s@.subrange(0, 0) =~= Seq::<char>::empty());
        assert(prepend_first(Seq::<char>::empty(), split_on(s@, sep@)) =~= split_on(s@, sep@));
        assert(out@.map_values(|f: String| f@) =~= Seq::<Seq<char>>::empty());
    }
    while i < n
        invariant
            cs@ == s@,
            sp@ == sep@,
            sep@.len() > 0,
            n == s@.len(),
            start <= i <= n,
            split_on(s@, sep@) == out@.map_values(|f: String| f@) + prepend_first(
                s@.subrange(start as int, i as int),
                split_on(s@.skip(i as int), sep@),
            ),
        decreases n - i,
    {
        let ghost rest = s@.skip(i as int);
        let ghost before = out@.map_values(|f: String| f@);
        proof {
            lemma_prefix_occurs(rest, sep@);
            if i + sep@.len() <= n {
                assert(rest.subrange(0, sep@.len() as int) =~= s@.subrange(i as int, i + sep@.len()));
            }
            lemma_split_nonempty(rest.skip(sep@.len() as int), sep@);
            lemma_split_nonempty(rest.drop_first(), sep@);
        }
        if matches_at(&cs, &sp, i) {
            let field = piece(s, start, i);
            out.push(field);
            proof {
                assert(rest.skip(sep@.len() as int) =~= s@.skip(i + sep@.len()));
                assert(out@.map_values(|f: String| f@) =~= before.push(s@.subrange(start as int, i as int)));
                let tail = split_on(s@.skip(i + sep@.len()), sep@);
                assert(prepend_first(s@.subrange(start as int, i as int), seq![Seq::<char>::empty()] + tail)
                    =~= seq![s@.subrange(start as int, i as int)] + tail);
                assert(s@.subrange(i + sep@.len(), i + sep@.len()) =~= Seq::<char>::empty());
                assert(prepend_first(Seq::<char>::empty(), tail) =~= tail) by {
                    lemma_split_nonempty(s@.skip(i + sep@.len()), sep@);
                }
            }
            i = i + sp.len();
            start = i;
        } else {
            proof {
                assert(rest.drop_first() =~= s@.skip(i + 1));
                let tail = split_on(s@.skip(i + 1), sep@);
                lemma_split_nonempty(s@.skip(i + 1), sep@);
                assert(s@.subrange(start as int, i as int) + seq![s@[i as int]]
                    =~= s@.subrange(start as int, i + 1));
                assert(rest[0] == s@[i as int]);
                assert(s@.subrange(start as int, i as int) + (seq![rest[0]] + tail[0])
                    =~= s@.subrange(start as int, i + 1) + tail[0]);
                assert(prepend_first(s@.subrange(start as int, i as int), prepend_first(seq![rest[0]], tail))
                    =~= prepend_first(s@.subrange(start as int, i + 1), tail));
            }
            i = i + 1;
        }
    }
    let last = piece(s, start, n);
    let ghost before = out@.map_values(|f: String| f@);
    out.push(last);
    proof {
        assert(s@.skip(n as int) =~= Seq::<char>::empty());
        assert(prepend_first(s@.subrange(start as int, n as int), seq![Seq::<char>::empty()])
            =~= seq![s@.subrange(start as int, n as int)]);
        assert(out@.map_values(|f: String| f@) =~= before.push(s@.subrange(start as int, n as int)));
    }
    out
}

/// The character of the decimal digit `d`.
pub open spec fn digit_char(d: nat) -> char {
    if d == 0 { '0' }
    else if d == 1 { '1' }
    else if d == 2 { '2' }
    else if d == 3 { '3' }
    else if d == 4 { '4' }
    else if d == 5 { '5' }
    else if d == 6 { '6' }
    else if d == 7 { '7' }
    else if d == 8 { '8' }
    else { '9' }
}

/// The decimal rendering of `n`, without leading zeros.
pub open spec fn decimal(n: nat) -> Seq<char>
    decreases n,
{
    if n < 10 {
        seq![digit_char(n)]
    } else {
        decimal(n / 10) + seq![digit_char(n % 10)]
    }
}

fn digit_str(d: u8) -> (s: &'static str)
    requires
        d < 10,
    ensures
        s@ == seq![digit_char(d as nat)],
{
    proof {
        reveal_strlit("0");
        reveal_strlit("1");
        reveal_strlit("2");
        reveal_strlit("3");
        reveal_strlit("4");
        reveal_strlit("5");
        reveal_strlit("6");
        reveal_strlit("7");
        reveal_strlit("8");
        reveal_strlit("9");
    }
    if d == 0 { "0" }
    else if d == 1 { "1" }
    else if d == 2 { "2" }
    else if d == 3 { "3" }
    else if d == 4 { "4" }
    else if d == 5 { "5" }
    else if d == 6 { "6" }
    else if d == 7 { "7" }
    else if d == 8 { "8" }
    else { "9" }
}

/// The decimal rendering of `n`.
pub fn decimal_string(n: u128) -> (s: String)
    ensures
        s@ == decimal(n as nat),
{
    // digits, least significant first
    let mut digits: Vec<u8> = Vec::new();
    let mut m: u128 = n;
    let ghost mut tail: Seq<char> = Seq::empty();
    loop
        invariant_except_break
            decimal(n as nat) == decimal(m as nat) + tail,
        invariant
            m <= n,
            tail.len() == digits@.len(),
            forall|k: int| 0 <= k < digits@.len() ==> digits@[k] < 10,
            forall|k: int| 0 <= k < digits@.len() ==>
                #[trigger] tail[k] == digit_char(digits@[digits@.len() - 1 - k] as nat),
        ensures
            decimal(n as nat) == tail,
            tail.len() == digits@.len(),
            forall|k: int| 0 <= k < digits@.len() ==> digits@[k] < 10,
            forall|k: int| 0 <= k < digits@.len() ==>
                #[trigger] tail[k] == digit_char(digits@[digits@.len() - 1 - k] as nat),
        decreases m,
    {
        let d = (m % 10) as u8;
        if m < 10 {
            digits.push(d);
            proof {
                let old_tail = tail;
                tail = seq![digit_char(d as nat)] + old_tail;
                assert(m % 10 == m);
                assert(decimal(m as nat) == seq![digit_char(m as nat)]);
                assert(decimal(n as nat) =~= tail);
                assert forall|k: int| 0 <= k < digits@.len() implies
                    #[trigger] tail[k] == digit_char(digits@[digits@.len() - 1 - k] as nat) by {
                    if k > 0 {
                        assert(tail[k] == old_tail[k - 1]);
                    }
                }
            }
            break;
        }
        digits.push(d);
        proof {
            let old_tail = tail;
            tail = seq![digit_char(d as nat)] + old_tail;
            assert(decimal(m as nat) == decimal((m / 10) as nat) + seq![digit_char((m % 10) as nat)]);
            assert(decimal(n as nat) =~= decimal((m / 10) as nat) + tail);
            assert forall|k: int| 0 <= k < digits@.len() implies
                #[trigger] tail[k] == digit_char(digits@[digits@.len() - 1 - k] as nat) by {
                if k > 0 {
                    assert(tail[k] == old_tail[k - 1]);
                }
            }
        }
        m = m / 10;
    }
    let mut s = String::new();
    let mut k: usize = digits.len();
    while k > 0
        invariant
            k <= digits@.len(),
            tail.len() == digits@.len(),
            decimal(n as nat) == tail,
            s@ == tail.take(digits@.len() - k),
            forall|j: int| 0 <= j < digits@.len() ==> digits@[j] < 10,
            forall|j: int| 0 <= j < digits@.len() ==>
                #[trigger] tail[j] == digit_char(digits@[digits@.len() - 1 - j] as nat),
        decreases k,
    {
        k = k - 1;
        let ghost before = s@;
        s.append(digit_str(digits[k]));
        proof {
            let idx = digits@.len() - 1 - k;
            assert(tail[idx] == digit_char(digits@[k as int] as nat));
            assert(tail.take(idx) + seq![tail[idx]] =~= tail.take(idx + 1));
        }
    }
    proof {
        assert(tail.take(digits@.len() as int) =~= tail);
    }
    s
}

/// `fields` joined with `sep` between consecutive fields.
pub open spec fn joined(fields: Seq<Seq<char>>, sep: Seq<char>) -> Seq<char>
    decreases fields.len(),
{
    if fields.len() == 0 {
        Seq::empty()
    } else if fields.len() == 1 {
        fields[0]
    } else {
        fields[0] + sep + joined(fields.drop_first(), sep)
    }
}

proof fn lemma_join_prepend(p: Seq<char>, fields: Seq<Seq<char>>, sep: Seq<char>)
    requires
        fields.len() >= 1,
    ensures
        joined(prepend_first(p, fields), sep) == p + joined(fields, sep),
{
    let q = prepend_first(p, fields);
    if fields.len() == 1 {
    } else {
        assert(q.drop_first() =~= fields.drop_first());
        assert(q[0] + sep + joined(q.drop_first(), sep) =~= p + (fields[0] + sep + joined(fields.drop_first(), sep)));
    }
}

/// Joining the fields of a split with its separator gives the text back.
pub proof fn lemma_join_split(s: Seq<char>, sep: Seq<char>)
    ensures
        joined(split_on(s, sep), sep) == s,
    decreases s.len(),
{
    if s.len() == 0 {
        assert(s =~= Seq::<char>::empty());
    } else if sep.len() > 0 && sep.is_prefix_of(s) {
        let rest = s.skip(sep.len() as int);
        lemma_join_split(rest, sep);
        lemma_split_nonempty(rest, sep);
        let f = seq![Seq::<char>::empty()] + split_on(rest, sep);
        assert(f.drop_first() =~= split_on(rest, sep));
        assert(s =~= Seq::<char>::empty() + sep + rest);
    } else {
        lemma_join_split(s.drop_first(), sep);
        lemma_split_nonempty(s.drop_first(), sep);
        lemma_join_prepend(seq![s[0]], split_on(s.drop_first(), sep), sep);
        assert(seq![s[0]] + s.drop_first() =~= s);
    }
}

/// `fields` joined with `sep`, computed.
pub fn join_strings(fields: &Vec<String>, sep: &str) -> (s: String)
    ensures
        s@ == joined(fields@.map_values(|f: String| f@), sep@),
{
    let ghost views = fields@.map_values(|f: String| f@);
    let n = fields.len();
    if n == 0 {
        return String::new();
    }
    // build from the back: s holds the join of fields[k..]
    let mut s = fields[n - 1].clone();
    let mut k: usize = n - 1;
    proof {
        assert(views.subrange(k as int, n as int) =~= seq![views[k as int]]);
    }
    while k > 0
        invariant
            views == fields@.map_values(|f: String| f@),
            n == fields@.len(),
            k < n,
            s@ == joined(views.subrange(k as int, n as int), sep@),
        decreases k,
    {
        k = k - 1;
        let mut t = fields[k].clone();
        t.append(sep);
        t.append(s.as_str());
        proof {
            let sub = views.subrange(k as int, n as int);
            assert(sub.drop_first() =~= views.subrange(k + 1, n as int));
            assert(sub[0] == views[k as int]);
        }
        s = t;
    }
    proof {
        assert(views.subrange(0, n as int) =~= views);
    }
    s
}

} // verus!
