//! Small text helpers: decimal numbers and line joining.

use vstd::prelude::*;
use vstd::string::StringExecFns;

verus! {

/// The decimal digit `d` as a character.
pub open spec fn digit_char(d: int) -> char {
    seq!['0', '1', '2', '3', '4', '5', '6', '7', '8', '9'][d]
}

/// The decimal representation of `n`, without leading zeros.
pub open spec fn decimal(n: nat) -> Seq<char>
    decreases n,
{
    if n < 10 {
        seq![digit_char(n as int)]
    } else {
        decimal(n / 10).push(digit_char((n % 10) as int))
    }
}

/// The decimal representation of `n`, zero-padded to at least two digits.
pub open spec fn padded2(n: nat) -> Seq<char> {
    if n < 10 {
        seq!['0'] + decimal(n)
    } else {
        decimal(n)
    }
}

/// The lines of `ls` joined by newline characters.
pub open spec fn join_lines(ls: Seq<Seq<char>>) -> Seq<char>
    decreases ls.len(),
{
    if ls.len() == 0 {
        Seq::empty()
    } else if ls.len() == 1 {
        ls[0]
    } else {
        join_lines(ls.drop_last()) + seq!['\n'] + ls.last()
    }
}

/// `count` space characters.
pub open spec fn spaces(count: nat) -> Seq<char> {
    Seq::new(count, |i: int| ' ')
}

/// The views of a sequence of strings.
pub open spec fn views(s: Seq<String>) -> Seq<Seq<char>> {
    s.map_values(|x: String| x@)
}

fn digit_str(d: u64) -> (r: &'static str)
    requires
        d < 10,
    ensures
        r@ == seq![digit_char(d as int)],
{
    proof {
        reveal_strlit("0");
        reveal_strlit("1");
        reveal_strlit("2");
        reveal_strlit("3");
        reveal_strlit("4");
        reveal_strlit("5");
        reveal_strlit("6");
        reveal_strlit("7");
        reveal_strlit("8");
        reveal_strlit("9");
    }
    let r = match d {
        0 => "0",
        1 => "1",
        2 => "2",
        3 => "3",
        4 => "4",
        5 => "5",
        6 => "6",
        7 => "7",
        8 => "8",
        _ => "9",
    };
    assert(r@ =~= seq![digit_char(d as int)]);
    r
}

/// The decimal representation of `n`.
pub fn decimal_string(n: u64) -> (r: String)
    ensures
        r@ == decimal(n as nat),
    decreases n,
{
    if n < 10 {
        digit_str(n).to_owned()
    } else {
        let s = decimal_string(n / 10);
        let r = s.concat(digit_str(n % 10));
        assert(r@ =~= decimal(n as nat));
        r
    }
}

/// The decimal representation of `n`, zero-padded to at least two digits.
pub fn padded2_string(n: u64) -> (r: String)
    ensures
        r@ == padded2(n as nat),
{
    let d = decimal_string(n);
    if n < 10 {
        proof {
            reveal_strlit("0");
        }
        let r = "0".to_owned().concat(d.as_str());
        assert(r@ =~= padded2(n as nat));
        r
    } else {
        d
    }
}

/// `count` spaces.
pub fn spaces_string(count: usize) -> (r: String)
    ensures
        r@ == spaces(count as nat),
{
    proof {
        reveal_strlit("");
        reveal_strlit(" ");
    }
    let mut r = "".to_owned();
    let mut i: usize = 0;
    while i < count
        invariant
            0 <= i <= count,
            r@ == spaces(i as nat),
        decreases count - i,
    {
        let ghost prev = r@;
        r = r.concat(" ");
        assert(" "@ =~= seq![' ']) by {
            reveal_strlit(" ");
        }
        assert(r@ =~= spaces((i + 1) as nat)) by {
            assert(r@ == prev + seq![' ']);
        }
        i += 1;
    }
    r
}

/// The given lines joined by newline characters.
pub fn join_with_newlines(lines: &Vec<String>) -> (r: String)
    ensures
        r@ == join_lines(views(lines@)),
{
    proof {
        reveal_strlit("");
        reveal_strlit("\n");
    }
    let n = lines.len();
    if n == 0 {
        let r = "".to_owned();
        return r;
    }
    let mut r = lines[0].clone();
    let mut i: usize = 1;
    assert(views(lines@).take(1) =~= seq![lines@[0]@]);
    while i < n
        invariant
            1 <= i <= n,
            n == lines.len(),
            r@ == join_lines(views(lines@).take(i as int)),
        decreases n - i,
    {
        let ghost prev = r@;
        r = r.concat("\n");
        r = r.concat(lines[i].as_str());
        assert("\n"@ =~= seq!['\n']) by {
            reveal_strlit("\n");
        }
        assert(r@ == prev + seq!['\n'] + lines@[i as int]@);
        assert(views(lines@).take(i + 1).drop_last() =~= views(lines@).take(i as int));
        assert(views(lines@).take(i + 1).last() == lines@[i as int]@);
        i += 1;
    }
    assert(views(lines@).take(n as int) =~= views(lines@));
    r
}

} // verus!
