//! A clock face drawn on a canvas: a dot at the centre and one at each hour.
use vstd::prelude::*;

use crate::canvas::Canvas;

verus! {

/// Side of the square canvas that a clock face is drawn on.
pub const CLOCK_SIZE: usize = 500;

/// Whether `(x, y)` is the centre or one of the marks.
pub open spec fn is_marked(centre: (usize, usize), marks: Seq<(usize, usize)>, x: int, y: int) -> bool {
    (x == centre.0 && y == centre.1) || exists|k: int|
        0 <= k < marks.len() && #[trigger] marks[k].0 == x && marks[k].1 == y
}

/// A clock face: a square canvas of `paper`, inked at `centre` and at each
/// of the hour `marks` that lies on it.
pub fn create_clock<P: Copy>(centre: (usize, usize), marks: &Vec<(usize, usize)>, paper: P, ink: P) -> (c:
    Canvas<P>)
    ensures
        c.wf(),
        c.columns() == CLOCK_SIZE,
        c.rows() == CLOCK_SIZE,
        forall|x: int, y: int|
            c.contains(x, y) ==> c.pixel(x, y) == if is_marked(centre, marks@, x, y) {
                ink
            } else {
                paper
            },
{
    let mut canvas = Canvas::new(CLOCK_SIZE, CLOCK_SIZE, paper);
    canvas.set_pixel(centre.0, centre.1, ink);
    for i in 0..marks.len()
        invariant
            canvas.wf(),
            canvas.columns() == CLOCK_SIZE,
            canvas.rows() == CLOCK_SIZE,
            forall|x: int, y: int|
                canvas.contains(x, y) ==> canvas.pixel(x, y) == if is_marked(
                    centre,
                    marks@.take(i as int),
                    x,
                    y,
                ) {
                    ink
                } else {
                    paper
                },
    {
        let (x, y) = marks[i];
        canvas.set_pixel(x, y, ink);
        assert forall|a: int, b: int| canvas.contains(a, b) implies canvas.pixel(a, b) == if is_marked(
            centre,
            marks@.take(i + 1),
            a,
            b,
        ) {
            ink
        } else {
            paper
        } by {
            if is_marked(centre, marks@.take(i as int), a, b) {
                if !(a == centre.0 && b == centre.1) {
                    let k = choose|k: int|
                        0 <= k < i && #[trigger] marks@.take(i as int)[k].0 == a && marks@.take(
                            i as int,
                        )[k].1 == b;
                    assert(marks@.take(i + 1)[k] == marks@.take(i as int)[k]);
                }
            } else if a == x && b == y {
                assert(marks@.take(i + 1)[i as int] == marks@[i as int]);
            } else if is_marked(centre, marks@.take(i + 1), a, b) {
                if !(a == centre.0 && b == centre.1) {
                    let k = choose|k: int|
                        0 <= k < i + 1 && #[trigger] marks@.take(i + 1)[k].0 == a && marks@.take(
                            i + 1,
                        )[k].1 == b;
                    assert(marks@.take(i as int)[k] == marks@.take(i + 1)[k]);
                }
            }
        }
    }
    assert(marks@.take(marks@.len() as int) =~= marks@);
    canvas
}

} // verus!
