use vstd::prelude::*;

verus! {

/// The decimal digit character for `d`, below ten.
pub open spec fn digit_char(d: nat) -> char {
    if d == 0 {
        '0'
    } else if d == 1 {
        '1'
    } else if d == 2 {
        '2'
    } else if d == 3 {
        '3'
    } else if d == 4 {
        '4'
    } else if d == 5 {
        '5'
    } else if d == 6 {
        '6'
    } else if d == 7 {
        '7'
    } else if d == 8 {
        '8'
    } else {
        '9'
    }
}

/// `n` written in decimal, without leading zeros.
pub open spec fn decimal(n: nat) -> Seq<char>
    decreases n,
{
    if n < 10 {
        seq![digit_char(n)]
    } else {
        decimal(n / 10) + seq![digit_char(n % 10)]
    }
}

/// One exported line: the two coordinates and the label, separated by
/// single spaces and ended by a newline.
pub open spec fn line_text(x: Seq<char>, y: Seq<char>, label: u8) -> Seq<char> {
    x + seq![' '] + y + seq![' '] + decimal(label as nat) + seq!['\n']
}

/// A sample of an embedding, its coordinates already written out in decimal.
#[derive(Debug)]
pub struct EmbeddedPoint {
    pub x: String,
    pub y: String,
    pub label: u8,
}

/// The exported text of `points`: one line each, in order.
pub open spec fn text_of(points: Seq<EmbeddedPoint>) -> Seq<char>
    decreases points.len(),
{
    if points.len() == 0 {
        Seq::empty()
    } else {
        text_of(points.drop_last()) + line_text(points.last().x@, points.last().y@, points.last().label)
    }
}

fn digit_str(d: u8) -> (r: &'static str)
    requires
        d < 10,
    ensures
        r@ == seq![digit_char(d as nat)],
{
    if d == 0 {
        proof { reveal_strlit("0"); }
        "0"
    } else if d == 1 {
        proof { reveal_strlit("1"); }
        "1"
    } else if d == 2 {
        proof { reveal_strlit("2"); }
        "2"
    } else if d == 3 {
        proof { reveal_strlit("3"); }
        "3"
    } else if d == 4 {
        proof { reveal_strlit("4"); }
        "4"
    } else if d == 5 {
        proof { reveal_strlit("5"); }
        "5"
    } else if d == 6 {
        proof { reveal_strlit("6"); }
        "6"
    } else if d == 7 {
        proof { reveal_strlit("7"); }
        "7"
    } else if d == 8 {
        proof { reveal_strlit("8"); }
        "8"
    } else {
        proof { reveal_strlit("9"); }
        "9"
    }
}

/// Writes `v` in decimal.
pub fn label_text(v: u8) -> (r: String)
    ensures
        r@ == decimal(v as nat),
{
    let mut s = String::new();
    if v >= 100 {
        let ghost hi = digit_char((v / 100) as nat);
        let ghost mid = digit_char(((v / 10) % 10) as nat);
        let ghost lo = digit_char((v % 10) as nat);
        s.append(digit_str(v / 100));
        s.append(digit_str((v / 10) % 10));
        s.append(digit_str(v % 10));
        proof {
            assert(s@ =~= seq![hi, mid, lo]);
            assert(decimal((v / 100) as nat) == seq![digit_char((v / 100) as nat)]);
            assert((v / 10) as nat / 10 == (v / 100) as nat);
            assert((v / 10) as nat % 10 == ((v / 10) % 10) as nat);
            assert(decimal((v / 10) as nat) == decimal((v / 100) as nat) + seq![digit_char(((v / 10) % 10) as nat)]);
            assert(decimal(v as nat) == decimal((v / 10) as nat) + seq![digit_char((v % 10) as nat)]);
            assert(decimal((v / 10) as nat) =~= seq![hi, mid]);
            assert(decimal(v as nat) =~= seq![hi, mid, lo]);
        }
    } else if v >= 10 {
        s.append(digit_str(v / 10));
        s.append(digit_str(v % 10));
        proof {
            assert(decimal((v / 10) as nat) == seq![digit_char((v / 10) as nat)]);
            assert(decimal(v as nat) == decimal((v / 10) as nat) + seq![digit_char((v % 10) as nat)]);
            assert(s@ =~= decimal(v as nat));
        }
    } else {
        s.append(digit_str(v));
        proof {
            assert(s@ =~= decimal(v as nat));
        }
    }
    s
}

/// Writes one line of the export: `x`, `y` and `label`, separated by single
/// spaces and ended by a newline.
pub fn export_line(x: &str, y: &str, label: u8) -> (r: String)
    ensures
        r@ == line_text(x@, y@, label),
{
    let mut s = String::new();
    s.append(x);
    proof { reveal_strlit(" "); }
    s.append(" ");
    s.append(y);
    s.append(" ");
    let l = label_text(label);
    s.append(l.as_str());
    proof { reveal_strlit("\n"); }
    s.append("\n");
    proof {
        assert(s@ =~= line_text(x@, y@, label));
    }
    s
}

/// The whole export file for `points`: one line per point, in order.
pub fn export_text(points: &Vec<EmbeddedPoint>) -> (r: String)
    ensures
        r@ == text_of(points@),
{
    let mut s = String::new();
    let mut i: usize = 0;
    while i < points.len()
        invariant
            i <= points@.len(),
            s@ == text_of(points@.subrange(0, i as int)),
        decreases points@.len() - i,
    {
        let line = export_line(points[i].x.as_str(), points[i].y.as_str(), points[i].label);
        s.append(line.as_str());
        proof {
            let pre = points@.subrange(0, i as int + 1);
            assert(pre.drop_last() =~= points@.subrange(0, i as int));
        }
        i = i + 1;
    }
    proof {
        assert(points@.subrange(0, points@.len() as int) =~= points@);
    }
    s
}

} // verus!
