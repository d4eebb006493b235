use vstd::prelude::*;
use crate::general::text::{str_to_chars, string_of, parse_isize, spec_parse_isize, chars_to_string, push_chars, push_decimal};
use super::mnc_checker::{MacroNameCodeChecker, ChekerErrorMNC};

verus! {

/// The least index from `from` on where `p` occurs in `h`.
pub open spec fn find_from(h: Seq<char>, p: Seq<char>, from: int) -> Option<int>
    decreases h.len() + 1 - from,
{
    if from < 0 || from + p.len() > h.len() {
        None
    } else if h.subrange(from, from + p.len()) == p {
        Some(from)
    } else {
        find_from(h, p, from + 1)
    }
}

pub proof fn lemma_find_from_bounds(h: Seq<char>, p: Seq<char>, from: int)
    ensures
        find_from(h, p, from) matches Some(i) ==> from <= i && i + p.len() <= h.len() && h.subrange(i, i + p.len()) == p,
    decreases h.len() + 1 - from,
{
    if !(from < 0 || from + p.len() > h.len()) && h.subrange(from, from + p.len()) != p {
        lemma_find_from_bounds(h, p, from + 1);
    }
}

/// The first part of `h` split at `p` (std `split(..).next()`).
pub open spec fn first_part(h: Seq<char>, p: Seq<char>) -> Seq<char> {
    match find_from(h, p, 0) {
        Some(i) => h.subrange(0, i),
        None => h,
    }
}

/// The second part of `h` split at `p`, if there is one.
pub open spec fn second_part(h: Seq<char>, p: Seq<char>) -> Option<Seq<char>> {
    if p.len() == 0 {
        Some(if h.len() > 0 { h.subrange(0, 1) } else { seq![] })
    } else {
        match find_from(h, p, 0) {
            None => None,
            Some(i) => {
                let rest = h.subrange(i + p.len(), h.len() as int);
                Some(first_part(rest, p))
            }
        }
    }
}

/// The parts of `s` between the characters `c`.
pub open spec fn split_on(s: Seq<char>, c: char) -> Seq<Seq<char>>
    decreases s.len(),
{
    if s.len() == 0 {
        seq![seq![]]
    } else {
        let prev = split_on(s.drop_last(), c);
        if s.last() == c {
            prev.push(seq![])
        } else {
            prev.update(prev.len() - 1, prev.last().push(s.last()))
        }
    }
}

/// A macro-name rule on created and deleted cells: a name `@[n]...` says
/// that its code leaves `n` cells created; any other name, none.
pub struct CellCheckerCD {
    pub rule_out: String,
    pub open_num: String,
    pub close_num: String,
}

fn find_from_exec(h: &Vec<char>, p: &Vec<char>, from: usize) -> (r: Option<usize>)
    requires
        from <= h@.len(),
    ensures
        r is None <==> find_from(h@, p@, from as int) is None,
        r matches Some(i) ==> find_from(h@, p@, from as int) == Some(i as int) && from <= i && i + p@.len() <= h@.len(),
    decreases h@.len() - from,
{
    proof { lemma_find_from_bounds(h@, p@, from as int); }
    if p.len() > h.len() - from { return None }
    let mut k: usize = 0;
    let mut same = true;
    assert(h@.subrange(from as int, from as int) =~= p@.take(0));
    while k < p.len()
        invariant
            from + p@.len() <= h@.len(),
            k <= p@.len(),
            same == (h@.subrange(from as int, from + k) == p@.take(k as int)),
        decreases p@.len() - k,
    {
        assert(from + k < h.len());
        let idx: usize = from + k;
        if same && h[idx] != p[k] { same = false; }
        proof {
            if same {
                assert(h@.subrange(from as int, from + k + 1) =~= p@.take(k + 1));
            } else {
                if h@.subrange(from as int, from + k + 1) == p@.take(k + 1) {
                    assert(h@.subrange(from as int, from + k) =~= h@.subrange(from as int, from + k + 1).take(k as int));
                    assert(p@.take(k as int) =~= p@.take(k + 1).take(k as int));
                    assert(h@[from + k] == h@.subrange(from as int, from + k + 1)[k as int]);
                }
            }
        }
        k = k + 1;
    }
    assert(p@.take(p@.len() as int) =~= p@);
    if same { return Some(from) }
    if from + p.len() >= h.len() {
        assert(find_from(h@, p@, from + 1) is None);
        return None;
    }
    find_from_exec(h, p, from + 1)
}

fn slice_of(h: &Vec<char>, a: usize, b: usize) -> (r: Vec<char>)
    requires
        a <= b <= h@.len(),
    ensures
        r@ == h@.subrange(a as int, b as int),
{
    let mut r: Vec<char> = Vec::new();
    let mut i = a;
    while i < b
        invariant
            a <= i <= b,
            b <= h@.len(),
            r@ == h@.subrange(a as int, i as int),
        decreases b - i,
    {
        r.push(h[i]);
        i = i + 1;
        assert(r@ =~= h@.subrange(a as int, i as int));
    }
    r
}

impl CellCheckerCD {
    /// The rule with `@`, `[` and `]`.
    pub fn new_std() -> (r: Self)
        ensures
            r.rule_out@ == seq!['@'],
            r.open_num@ == seq!['['],
            r.close_num@ == seq![']'],
    {
        Self {
            rule_out: string_of(&['@']),
            open_num: string_of(&['[']),
            close_num: string_of(&[']']),
        }
    }

    /// The cells that a name says its code leaves created.
    pub open spec fn spec_name_cells(&self, name: Seq<char>) -> isize {
        if first_part(name, self.open_num@) != self.rule_out@ {
            0
        } else {
            match second_part(name, self.open_num@) {
                None => 0,
                Some(num) => match spec_parse_isize(first_part(num, self.close_num@)) {
                    Some(x) => x,
                    None => 0,
                },
            }
        }
    }

    fn cell_checker_name(&self, name: &Vec<char>) -> (r: isize)
        ensures
            r == self.spec_name_cells(name@),
    {
        let open = str_to_chars(self.open_num.as_str());
        let close = str_to_chars(self.close_num.as_str());
        let rule = str_to_chars(self.rule_out.as_str());
        assert(name@.subrange(0, name@.len() as int) =~= name@);
        let first = match find_from_exec(name, &open, 0) {
            Some(i) => slice_of(name, 0, i),
            None => slice_of(name, 0, name.len()),
        };
        assert(open@ == self.open_num@);
        assert(rule@ == self.rule_out@);
        assert(first@ == first_part(name@, self.open_num@));
        if !crate::general::text::chars_eq(first.as_slice(), rule.as_slice()) { return 0 }
        let second: Option<Vec<char>> = if open.len() == 0 {
            if name.len() > 0 { Some(slice_of(name, 0, 1)) } else { Some(Vec::new()) }
        } else {
            match find_from_exec(name, &open, 0) {
                None => None,
                Some(i) => {
                    assert(i + open@.len() <= name@.len());
                    let nl = name.len();
                    let ol = open.len();
                    assert(i + ol <= nl);
                    let rest = slice_of(name, i + ol, nl);
                    match find_from_exec(&rest, &open, 0) {
                        Some(j) => Some(slice_of(&rest, 0, j)),
                        None => Some(rest),
                    }
                }
            }
        };
        match second {
            None => 0,
            Some(num) => {
                assert(num@.subrange(0, num@.len() as int) =~= num@);
                let num_first = match find_from_exec(&num, &close, 0) {
                    Some(j) => slice_of(&num, 0, j),
                    None => slice_of(&num, 0, num.len()),
                };
                match parse_isize(num_first.as_slice()) {
                    Some(x) => x,
                    None => 0,
                }
            }
        }
    }

    /// The cells that the code leaves created: over the parts between `%`,
    /// a macro call (a part at an odd place) adds what its name says, and
    /// in the other parts each `c` adds one and each `d` takes one away.
    /// `None` when the running sum leaves `isize`.
    pub open spec fn spec_code_cells(&self, parts: Seq<Seq<char>>) -> Option<int>
        decreases parts.len(),
    {
        if parts.len() == 0 {
            Some(0)
        } else {
            match self.spec_code_cells(parts.drop_last()) {
                None => None,
                Some(prev) => {
                    if (parts.len() - 1) % 2 == 1 {
                        let here = self.spec_name_cells(parts.last()) as int;
                        if isize::MIN <= prev + here <= isize::MAX { Some(prev + here) } else { None }
                    } else {
                        cd_run(parts.last(), prev)
                    }
                }
            }
        }
    }
}

/// The running count of created cells over the commands `s`, from `acc`:
/// `c` adds one, `d` takes one away; `None` once it leaves `isize`.
pub open spec fn cd_run(s: Seq<char>, acc: int) -> Option<int>
    decreases s.len(),
{
    if s.len() == 0 {
        Some(acc)
    } else {
        match cd_run(s.drop_last(), acc) {
            None => None,
            Some(x) => {
                let y = x + (if s.last() == 'c' { 1int } else if s.last() == 'd' { -1int } else { 0int });
                if isize::MIN <= y <= isize::MAX { Some(y) } else { None }
            }
        }
    }
}

proof fn lemma_cd_run_none(s: Seq<char>, acc: int, i: int)
    requires
        0 <= i <= s.len(),
        cd_run(s.take(i), acc) is None,
    ensures
        cd_run(s, acc) is None,
    decreases s.len() - i,
{
    if i < s.len() {
        assert(s.take(i + 1).drop_last() =~= s.take(i));
        lemma_cd_run_none(s, acc, i + 1);
    } else {
        assert(s.take(i) =~= s);
    }
}

fn split_percent(s: &Vec<char>) -> (r: Vec<Vec<char>>)
    ensures
        Seq::new(r@.len(), |k: int| r@[k]@) == split_on(s@, '%'),
{
    let mut parts: Vec<Vec<char>> = Vec::new();
    let mut cur: Vec<char> = Vec::new();
    let mut i: usize = 0;
    assert(s@.take(0) =~= Seq::<char>::empty());
    assert(Seq::new(parts@.len(), |k: int| parts@[k]@).push(cur@) =~= split_on(s@.take(0), '%'));
    while i < s.len()
        invariant
            i <= s@.len(),
            Seq::new(parts@.len(), |k: int| parts@[k]@).push(cur@) == split_on(s@.take(i as int), '%'),
        decreases s@.len() - i,
    {
        let c = s[i];
        assert(s@.take(i as int + 1).drop_last() =~= s@.take(i as int));
        let ghost prev = split_on(s@.take(i as int), '%');
        if c == '%' {
            parts.push(cur);
            cur = Vec::new();
            assert(Seq::new(parts@.len(), |k: int| parts@[k]@).push(cur@) =~= prev.push(seq![]));
        } else {
            cur.push(c);
            assert(Seq::new(parts@.len(), |k: int| parts@[k]@).push(cur@) =~= prev.update(prev.len() - 1, prev.last().push(c)));
        }
        i = i + 1;
    }
    assert(s@.take(s@.len() as int) =~= s@);
    let ghost before = Seq::new(parts@.len(), |k: int| parts@[k]@);
    parts.push(cur);
    assert(Seq::new(parts@.len(), |k: int| parts@[k]@) =~= before.push(parts@.last()@));
    parts
}

impl MacroNameCodeChecker for CellCheckerCD {
    /// A name that is not empty and says as many created cells as the code
    /// leaves.
    open spec fn spec_fits(&self, name: Seq<char>, code: Seq<char>) -> bool {
        name.len() > 0 && self.spec_code_cells(split_on(code, '%')) == Some(self.spec_name_cells(name) as int)
    }

    /// An empty name is an error; else the name must say as many created
    /// cells as the code leaves.
    fn check(&self, name: &str, code: &str) -> (r: Option<ChekerErrorMNC>)
        ensures
            r is None <==> (name@.len() > 0
                && self.spec_code_cells(split_on(code@, '%')) == Some(self.spec_name_cells(name@) as int)),
    {
        if name.is_empty() {
            return Some(ChekerErrorMNC { error: string_of(&['e', 'm', 'p', 't', 'y', ' ', 'n', 'a', 'm', 'e']) });
        }
        let name_v = str_to_chars(name);
        let cd_must_be = self.cell_checker_name(&name_v);

        let code_v = str_to_chars(code);
        let parts = split_percent(&code_v);
        let ghost pv = Seq::new(parts@.len(), |k: int| parts@[k]@);
        let mut cd_amount: isize = 0;
        let mut i: usize = 0;
        assert(pv.take(0) =~= Seq::<Seq<char>>::empty());
        while i < parts.len()
            invariant
                i <= parts@.len(),
                pv == Seq::new(parts@.len(), |k: int| parts@[k]@),
                pv == split_on(code@, '%'),
                self.spec_code_cells(pv.take(i as int)) == Some(cd_amount as int),
            decreases parts@.len() - i,
        {
            assert(pv.take(i as int + 1).drop_last() =~= pv.take(i as int));
            assert(pv.take(i as int + 1).last() == parts@[i as int]@);
            if i % 2 == 0 {
                let part = &parts[i];
                let ghost start = cd_amount as int;
                let mut j: usize = 0;
                assert(part@.take(0) =~= Seq::<char>::empty());
                while j < part.len()
                    invariant
                        j <= part@.len(),
                        i < pv.len(),
                        i % 2 == 0,
                        part@ == pv[i as int],
                        pv == split_on(code@, '%'),
                        self.spec_code_cells(pv.take(i as int)) == Some(start),
                        cd_run(part@.take(j as int), start) == Some(cd_amount as int),
                    decreases part@.len() - j,
                {
                    let c = part[j];
                    assert(part@.take(j as int + 1).drop_last() =~= part@.take(j as int));
                    let next = if c == 'c' { cd_amount.checked_add(1) } else if c == 'd' { cd_amount.checked_sub(1) } else { Some(cd_amount) };
                    match next {
                        Some(x) => { cd_amount = x; }
                        None => {
                            proof {
                                lemma_cd_run_none(part@, start, j as int + 1);
                                let t = pv.take(i as int + 1);
                                assert(t.drop_last() =~= pv.take(i as int));
                                assert(t.last() == part@);
                                assert(self.spec_code_cells(t) is None);
                                lemma_code_cells_none(self, pv, i as int + 1);
                            }
                            return Some(ChekerErrorMNC { error: string_of(&['t', 'o', 'o', ' ', 'm', 'a', 'n', 'y', ' ', 'c', 'e', 'l', 'l', 's']) });
                        }
                    }
                    j = j + 1;
                }
                assert(part@.take(part@.len() as int) =~= part@);
                assert(pv.take(i as int + 1).drop_last() =~= pv.take(i as int));
                assert(pv.take(i as int + 1).last() == part@);
            } else {
                let here = self.cell_checker_name(&parts[i]);
                match cd_amount.checked_add(here) {
                    Some(x) => { cd_amount = x; }
                    None => {
                        proof {
                            let t = pv.take(i as int + 1);
                            assert(t.drop_last() == pv.take(i as int));
                            assert((t.len() - 1) % 2 == 1);
                            assert(self.spec_code_cells(t) is None);
                            lemma_code_cells_none(self, pv, i as int + 1);
                        }
                        return Some(ChekerErrorMNC { error: string_of(&['t', 'o', 'o', ' ', 'm', 'a', 'n', 'y', ' ', 'c', 'e', 'l', 'l', 's']) });
                    }
                }
            }
            i = i + 1;
        }
        assert(pv.take(pv.len() as int) =~= pv);
        if cd_must_be == cd_amount {
            None
        } else {
            let mut v: Vec<char> = Vec::new();
            push_chars(&mut v, &['w', 'r', 'o', 'n', 'g', ' ', 'a', 'm', 'o', 'u', 'n', 't', ' ', 'o', 'f', ' ', '{', 'c', ',', ' ', 'd', '}', ' ', 'c', 'm', 'd', 's']);
            Some(ChekerErrorMNC { error: chars_to_string(&v) })
        }
    }
}

proof fn lemma_code_cells_none(c: &CellCheckerCD, parts: Seq<Seq<char>>, i: int)
    requires
        0 <= i <= parts.len(),
        c.spec_code_cells(parts.take(i)) is None,
    ensures
        c.spec_code_cells(parts) is None,
    decreases parts.len() - i,
{
    if i < parts.len() {
        assert(parts.take(i + 1).drop_last() =~= parts.take(i));
        lemma_code_cells_none(c, parts, i + 1);
    } else {
        assert(parts.take(i) =~= parts);
    }
}

}
