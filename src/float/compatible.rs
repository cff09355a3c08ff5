use vstd::prelude::*;

verus! {

/// A point type with an x and a y coordinate of type `T`.
pub trait FloatPointCompatible<T>: Copy {
    fn from_xy(x: T, y: T) -> Self;

    fn x(&self) -> T;

    fn y(&self) -> T;
}

/// A pair as a point: the x coordinate first.
impl<T: Copy> FloatPointCompatible<T> for [T; 2] {
    fn from_xy(x: T, y: T) -> (r: Self)
        ensures
            r@ == seq![x, y],
    {
        let r = [x, y];
        assert(r@ =~= seq![x, y]);
        r
    }

    fn x(&self) -> (r: T)
        ensures
            r == self@[0],
    {
        self[0]
    }

    fn y(&self) -> (r: T)
        ensures
            r == self@[1],
    {
        self[1]
    }
}

} // verus!
