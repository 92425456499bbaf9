use vstd::prelude::*;

use vstd::string::StringExecFns;

use crate::chars::{
    first_at, int_text_value, lemma_first_at, parse_i64_range, str_chars, trim_range, trim_spec,
    valid_int_text,
};
use crate::errors::AppError;
use crate::trusted::chars_to_string;

verus! {

/// A Point is an `(x, y)` coordinate on the `Grid`.
#[derive(Debug, Clone, Copy, PartialEq, Eq, Hash, Structural)]
pub struct Point(pub i64, pub i64);

impl Point {
    /// The mathematical value of this point, free of machine bounds.
    pub open spec fn key(self) -> (int, int) {
        (self.0 as int, self.1 as int)
    }

    pub fn origin() -> (r: Point)
        ensures
            r == Point(0i64, 0i64),
    {
        Point(0, 0)
    }
}

impl std::ops::Add for Point {
    type Output = Point;

    fn add(self, rhs: Point) -> (r: Point) {
        Point(self.0 + rhs.0, self.1 + rhs.1)
    }
}

impl vstd::std_specs::ops::AddSpecImpl for Point {
    open spec fn obeys_add_spec() -> bool {
        true
    }

    open spec fn add_req(self, rhs: Point) -> bool {
        &&& i64::MIN <= self.0 + rhs.0 <= i64::MAX
        &&& i64::MIN <= self.1 + rhs.1 <= i64::MAX
    }

    open spec fn add_spec(self, rhs: Point) -> Point {
        Point((self.0 + rhs.0) as i64, (self.1 + rhs.1) as i64)
    }
}

impl std::ops::Sub for Point {
    type Output = Point;

    fn sub(self, rhs: Point) -> (r: Point) {
        Point(self.0 - rhs.0, self.1 - rhs.1)
    }
}

impl vstd::std_specs::ops::SubSpecImpl for Point {
    open spec fn obeys_sub_spec() -> bool {
        true
    }

    open spec fn sub_req(self, rhs: Point) -> bool {
        &&& i64::MIN <= self.0 - rhs.0 <= i64::MAX
        &&& i64::MIN <= self.1 - rhs.1 <= i64::MAX
    }

    open spec fn sub_spec(self, rhs: Point) -> Point {
        Point((self.0 - rhs.0) as i64, (self.1 - rhs.1) as i64)
    }
}

impl Default for Point {
    fn default() -> (r: Point)
        ensures
            r == Point(0i64, 0i64),
    {
        Point(0, 0)
    }
}


/// Point text: optional surrounding whitespace, then `(x, y)` with two
/// decimal integers that fit `i64`, each with optional inner whitespace.
pub open spec fn point_text_ok(t: Seq<char>) -> bool {
    let u = trim_spec(t);
    &&& u.len() >= 2
    &&& u[0] == '('
    &&& u.last() == ')'
    &&& ({
        let inner = u.subrange(1, u.len() - 1);
        let c = first_at(inner, ',') as int;
        &&& c < inner.len()
        &&& valid_int_text(trim_spec(inner.subrange(0, c)))
        &&& i64::MIN <= int_text_value(trim_spec(inner.subrange(0, c))) <= i64::MAX
        &&& valid_int_text(trim_spec(inner.subrange(c + 1, inner.len() as int)))
        &&& i64::MIN <= int_text_value(trim_spec(inner.subrange(c + 1, inner.len() as int)))
            <= i64::MAX
    })
}

/// The coordinates the text denotes, meaningful when `point_text_ok`.
pub open spec fn point_text_value(t: Seq<char>) -> (int, int) {
    let u = trim_spec(t);
    let inner = u.subrange(1, u.len() - 1);
    let c = first_at(inner, ',') as int;
    (
        int_text_value(trim_spec(inner.subrange(0, c))),
        int_text_value(trim_spec(inner.subrange(c + 1, inner.len() as int))),
    )
}

impl Point {
    /// Read a Point from text of the shape `(x, y)`.
    pub fn parse_text(s: &str) -> (r: Result<Point, AppError>)
        ensures
            r is Ok <==> point_text_ok(s@),
            r matches Ok(p) ==> p.key() == point_text_value(s@),
            r matches Err(e) ==> e is ParsePoint,
    {
        let v = str_chars(s);
        let (a, b) = trim_range(&v, 0, v.len());
        let ghost u = trim_spec(s@);
        proof {
            assert(v@.subrange(0, v@.len() as int) =~= s@);
            assert(u == v@.subrange(a as int, b as int));
        }
        if b - a < 2 {
            return Err(AppError::ParsePoint(String::from_str("missing x and y values")));
        }
        if v[a] != '(' {
            let mut cv: Vec<char> = Vec::new();
            cv.push(v[a]);
            proof {
                assert(u[0] == v@[a as int]);
            }
            return Err(
                AppError::ParsePoint(
                    String::from_str("expected open paren '(', got '").concat(
                        chars_to_string(&cv).as_str(),
                    ).concat("'"),
                ),
            );
        }
        if v[b - 1] != ')' {
            proof {
                assert(u.last() == v@[b - 1]);
            }
            return Err(AppError::ParsePoint(String::from_str("expected closing paren ')'")));
        }
        let ghost inner = u.subrange(1, u.len() - 1);
        proof {
            assert(inner =~= v@.subrange(a as int + 1, b as int - 1));
            lemma_first_at(inner, ',');
        }
        let mut ci: usize = a + 1;
        while ci < b - 1 && v[ci] != ','
            invariant
                a + 1 <= ci <= b - 1,
                b <= v@.len(),
                a + 2 <= b,
                inner == v@.subrange(a as int + 1, b as int - 1),
                forall|j: int| 0 <= j < ci - a - 1 ==> inner[j] != ',',
            decreases b - ci,
        {
            proof {
                assert(inner[ci - a - 1] == v@[ci as int]);
            }
            ci = ci + 1;
        }
        proof {
            lemma_first_at(inner, ',');
            if ci < b - 1 {
                assert(inner[ci - a - 1] == v@[ci as int]);
                assert(inner[ci - a - 1] == ',');
                assert(first_at(inner, ',') == ci - a - 1) by {
                    let f = first_at(inner, ',') as int;
                    if f < ci - a - 1 {
                        assert(inner[f] != ',');
                    }
                    if f > ci - a - 1 {
                        assert(inner[ci - a - 1] != ',');
                    }
                }
            } else {
                assert(forall|j: int| 0 <= j < inner.len() ==> inner[j] != ',');
                assert(first_at(inner, ',') == inner.len()) by {
                    if first_at(inner, ',') < inner.len() {
                        assert(inner[first_at(inner, ',') as int] == ',');
                    }
                }
            }
        }
        if ci == b - 1 {
            return Err(AppError::ParsePoint(String::from_str("missing x and y values")));
        }
        let ghost c = first_at(inner, ',') as int;
        proof {
            assert(inner.subrange(0, c) =~= v@.subrange(a as int + 1, ci as int));
            assert(inner.subrange(c + 1, inner.len() as int) =~= v@.subrange(
                ci as int + 1,
                b as int - 1,
            ));
        }
        let (xa, xb) = trim_range(&v, a + 1, ci);
        let x: i64 = match parse_i64_range(&v, xa, xb) {
            Some(x) => x,
            None => {
                return Err(
                    AppError::ParsePoint(
                        String::from_str("invalid value for x: expected an int"),
                    ),
                );
            },
        };
        let (ya, yb) = trim_range(&v, ci + 1, b - 1);
        let y: i64 = match parse_i64_range(&v, ya, yb) {
            Some(y) => y,
            None => {
                return Err(
                    AppError::ParsePoint(
                        String::from_str("invalid value for y: expected an int"),
                    ),
                );
            },
        };
        Ok(Point(x, y))
    }
}

impl core::str::FromStr for Point {
    type Err = AppError;

    /// Read a Point from text of the shape `(x, y)`.
    fn from_str(s: &str) -> Result<Point, AppError> {
        Point::parse_text(s)
    }
}

} // verus!
