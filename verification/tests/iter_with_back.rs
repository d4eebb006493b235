use bf_cell_gen::general::iter_with_back::{BackwardMove, IterWithAutoBack, IterWithAutoBackN, IterPanicOnBack};

trait NextBack: BackwardMove {
    fn step(&mut self) -> Option<char>;
}

impl<const N: usize> NextBack for IterWithAutoBackN<char, N> {
    fn step(&mut self) -> Option<char> { self.next() }
}

impl NextBack for IterWithAutoBack<char> {
    fn step(&mut self) -> Option<char> { self.next() }
}

fn chars(s: &str) -> Vec<char> { s.chars().collect() }

fn test_01_helper_g<B: NextBack>(iter: &mut B) {
    assert_eq!(Some('0'), iter.step());
    assert_eq!(Some('1'), iter.step());
    iter.back();
    assert_eq!(Some('1'), iter.step());
    assert_eq!(Some('2'), iter.step());

    iter.back();
    assert_eq!(Some('2'), iter.step());
    iter.back();
    assert_eq!(Some('2'), iter.step());

    iter.back();
    iter.back();
    assert_eq!(Some('1'), iter.step());
    assert_eq!(Some('2'), iter.step());
    iter.back();
    assert_eq!(Some('2'), iter.step());

    iter.back();
    iter.back();
    iter.back();
    assert_eq!(Some('0'), iter.step());
    assert_eq!(Some('1'), iter.step());
    assert_eq!(Some('2'), iter.step());
    assert_eq!(Some('3'), iter.step());
    assert_eq!(Some('4'), iter.step());
    assert_eq!(Some('5'), iter.step());
    assert_eq!(Some('6'), iter.step());
    iter.back();
    assert_eq!(Some('6'), iter.step());
    assert_eq!(Some('7'), iter.step());

    iter.back();
    assert_eq!(Some('7'), iter.step());
}

fn test_01_helper() -> IterWithAutoBackN<char, 4> {
    let mut iter = IterWithAutoBackN::<char, 4>::new(chars("0123456789"));
    test_01_helper_g(&mut iter);
    iter
}

#[test]
fn test_01a() {
    let mut iter = test_01_helper();
    iter.back();
    iter.back();
    iter.back();
    assert_eq!(Some('5'), iter.next());
    assert_eq!(Some('6'), iter.next());
    assert_eq!(Some('7'), iter.next());
}

#[test]
fn test_01b() {
    let mut iter = test_01_helper();
    iter.back();
    iter.back();
    iter.back();
    iter.back();
    assert_eq!(Some('4'), iter.next());
    assert_eq!(Some('5'), iter.next());
    assert_eq!(Some('6'), iter.next());
    iter.back();
    assert_eq!(Some('6'), iter.next());
}

#[test]
fn test_02_a01() {
    let mut iter = IterWithAutoBackN::<char, 4>::new(chars("0123456789"));
    for _ in 0..17 {
        assert_eq!(Some('0'), iter.next());
        iter.back();
    }
}

fn test_02_a02_helper(to: usize) {
    const N: usize = 4;
    let mut iter = IterWithAutoBackN::<char, N>::new(chars("0123456789"));
    for index in 0..to {
        assert_eq!(char::from_digit(index as u32, 10), iter.next());
    }
    for _ in 0..N { iter.back() }
}

#[test]
fn test_02_a02() {
    const N: usize = 4;
    test_02_a02_helper(N);
    test_02_a02_helper(N + 1);
    test_02_a02_helper(N + 2);
    test_02_a02_helper(N + 3);
}

fn test_02_b02_helper_n(to_1: usize, to_2: usize) {
    const N: usize = 4;
    let mut iter = IterWithAutoBackN::<char, N>::new(chars("0123456789ABCDEFGH"));
    for _ in 0..to_1 { iter.next(); }
    for _ in 0..to_2 { iter.back() }
}

fn test_02_b02_helper(to_1: usize, to_2: usize) {
    let mut iter = IterWithAutoBack::new(chars("0123456789ABCDEFGH"));
    for _ in 0..to_1 { iter.next(); }
    for _ in 0..to_2 { iter.back() }
}

#[test]
fn iter_with_back_test_02_b02() {
    for to_2 in 2..=4 {
        for to_1 in to_2..15 {
            test_02_b02_helper_n(to_1, to_2)
        }
    }
    for to_2 in 2..=13 {
        for to_1 in to_2..15 {
            test_02_b02_helper(to_1, to_2)
        }
    }
}

fn test_02_01_helper() -> IterWithAutoBackN<char, 4> {
    let mut iter = IterWithAutoBackN::<char, 4>::new(chars("0123456789"));
    assert_eq!(Some('0'), iter.next());
    assert_eq!(Some('1'), iter.next());
    assert_eq!(Some('2'), iter.next());
    assert_eq!(Some('3'), iter.next());
    iter.back();
    iter.back();
    iter.back();
    iter.back();
    iter
}

#[test]
fn test_02_01() { test_02_01_helper(); }

fn test_02_02_helper() -> IterWithAutoBackN<char, 4> {
    let mut iter = test_02_01_helper();
    assert_eq!(Some('0'), iter.next());
    assert_eq!(Some('1'), iter.next());
    assert_eq!(Some('2'), iter.next());
    iter.back();
    iter.back();
    assert_eq!(Some('1'), iter.next());
    iter.back();
    iter.back();
    iter
}

#[test]
fn test_02_02() { test_02_02_helper(); }

#[test]
fn test_03() {
    const N: usize = 4;
    let mut iter = IterWithAutoBackN::<char, N>::new(chars("0123456789ABCDEFGH"));
    assert_eq!(Some('0'), iter.next());
    assert_eq!(Some('1'), iter.next());
    assert_eq!(Some('2'), iter.next());
    assert_eq!(Some('3'), iter.next());
    iter.back();
    iter.back();
    assert_eq!(Some('2'), iter.next());
    assert_eq!(Some('3'), iter.next());
    assert_eq!(Some('4'), iter.next());
    assert_eq!(Some('5'), iter.next());
    assert_eq!(Some('6'), iter.next());
    assert_eq!(Some('7'), iter.next());
    assert_eq!(Some('8'), iter.next());
    assert_eq!(Some('9'), iter.next());
    iter.back();
    iter.back();
    iter.back();
    assert_eq!(Some('7'), iter.next());
    assert_eq!(Some('8'), iter.next());
    assert_eq!(Some('9'), iter.next());
    assert_eq!(Some('A'), iter.next());
    assert_eq!(Some('B'), iter.next());
    iter.back();
    iter.back();
    iter.back();
    iter.back();
    assert_eq!(Some('8'), iter.next());
    assert_eq!(Some('9'), iter.next());
    assert_eq!(Some('A'), iter.next());
    assert_eq!(Some('B'), iter.next());
    assert_eq!(Some('C'), iter.next());
}

fn test_04_g<B: NextBack>(iter: &mut B) {
    assert_eq!(Some('0'), iter.step());
    assert_eq!(Some('1'), iter.step());
    assert_eq!(Some('2'), iter.step());
    assert_eq!(Some('3'), iter.step());
    iter.back();
    assert_eq!(Some('3'), iter.step());
    assert_eq!(Some('4'), iter.step());
    assert_eq!(Some('5'), iter.step());
    assert_eq!(None, iter.step());
    assert_eq!(None, iter.step());
    iter.back();
    assert_eq!(Some('5'), iter.step());
    assert_eq!(None, iter.step());
    iter.back();
    iter.back();
    assert_eq!(Some('4'), iter.step());
    assert_eq!(Some('5'), iter.step());
    assert_eq!(None, iter.step());
    assert_eq!(None, iter.step());
    assert_eq!(None, iter.step());
    iter.back();
    iter.back();
    iter.back();
    assert_eq!(Some('3'), iter.step());
    assert_eq!(Some('4'), iter.step());
    assert_eq!(Some('5'), iter.step());
    assert_eq!(None, iter.step());
}

#[test]
fn iter_with_back_test_04() {
    let mut iter = IterWithAutoBackN::<char, 4>::new(chars("012345"));
    test_04_g(&mut iter);
    let mut iter = IterWithAutoBack::new(chars("012345"));
    test_04_g(&mut iter);
}

#[test]
fn test_01() {
    let mut iter = IterWithAutoBack::new(chars("0123456789"));
    test_01_helper_g(&mut iter);
}

#[test]
fn test_02_d0() {
    let mut iter = IterWithAutoBack::new(chars("0123456789"));
    assert_eq!(Some('0'), iter.next());
    assert_eq!(Some('1'), iter.next());
    iter.back();
    assert_eq!(Some('1'), iter.next());
    iter.back();
    iter.back();
}

#[test]
fn back_then_next_repeats_item() {
    let mut iter = IterWithAutoBack::new(chars("ab"));
    assert_eq!(Some('a'), iter.next());
    iter.back();
    assert_eq!(Some('a'), iter.next());
    assert_eq!(Some('b'), iter.next());
    assert_eq!(None, iter.next());
}

#[test]
fn panic_on_back_iter_yields_source() {
    let mut iter = IterPanicOnBack::new(chars("xy"));
    assert_eq!(Some('x'), iter.next());
    assert_eq!(Some('y'), iter.next());
    assert_eq!(None, iter.next());
}

#[test]
fn ring_of_one_steps_back_once() {
    let mut iter = IterWithAutoBackN::<char, 1>::new(chars("pq"));
    assert_eq!(Some('p'), iter.next());
    iter.back();
    assert_eq!(Some('p'), iter.next());
    assert_eq!(Some('q'), iter.next());
    iter.back();
    assert_eq!(Some('q'), iter.next());
}
