//! Owning pointers, and a quota tracker that reports through a messenger.

use vstd::prelude::*;

verus! {

/// A list built from pairs.
pub enum MyList {
    Cons(i32, Box<MyList>),
    Nil,
}

/// The numbers in a list, front first.
pub open spec fn list_values(l: MyList) -> Seq<i32>
    decreases l,
{
    match l {
        MyList::Cons(v, rest) => seq![v] + list_values(*rest),
        MyList::Nil => Seq::empty(),
    }
}

/// Builds the list 1, 2, 3.
pub fn test_con_list() {
    let list = MyList::Cons(
        1,
        Box::new(MyList::Cons(2, Box::new(MyList::Cons(3, Box::new(MyList::Nil))))),
    );
    assert(list_values(list) =~= seq![1i32, 2, 3]) by {
        reveal_with_fuel(list_values, 4);
    }
}

/// A reference reads the value it points to.
pub fn test_standard_references() {
    let x: i32 = 5;
    let y = &x;
    assert(x == 5);
    assert(*y == 5);
}

/// A box reads the value it holds.
pub fn dereferencing_a_box() {
    let x: i32 = 5;
    let y = Box::new(x);
    assert(x == 5);
    assert(*y == 5);
}

/// A pointer of our own that owns one value.
pub struct MyBox<T>(pub T);

impl<T> MyBox<T> {
    pub fn new(x: T) -> (r: MyBox<T>)
        ensures
            r.0 == x,
    {
        MyBox(x)
    }

    /// The value held.
    pub fn deref(&self) -> (r: &T)
        ensures
            *r == self.0,
    {
        &self.0
    }
}

/// Our own pointer reads the value it holds.
pub fn test_my_box() {
    let x: i32 = 5;
    let y = MyBox::new(x);
    assert(x == 5);
    assert(y.0 == 5);
    let z = *y.deref();
    assert(z == 5);
}

/// Reads a string held in our own pointer as a string slice.
pub fn call_deref_coercion() {
    let m = MyBox::new(String::from_str("Test me"));
    let name: &str = m.deref().as_str();
    assert(name@ == "Test me"@);
}

struct CustomSmartPointer {
    data: String,
}

/// Releases a value before the end of its scope.
pub fn explicit_dropping_early() {
    let a = CustomSmartPointer { data: String::from_str("item a") };
    release(a);
}

/// Takes `x` and lets it go: the value is released here.
fn release<T>(x: T) {
}

/// Delivers a message somewhere.
pub trait Messenger {
    fn send(&self, msg: &str);
}

/// The warning due for `value` against quota `max`: over quota at 100%, a
/// warning at 90% and at 75%, none below; a quota of zero is exceeded by any
/// value above zero.
pub open spec fn quota_message(value: nat, max: nat) -> Option<Seq<char>> {
    if max == 0 {
        if value == 0 {
            None
        } else {
            Some("Oops: over quota"@)
        }
    } else if value >= max {
        Some("Oops: over quota"@)
    } else if 10 * value >= 9 * max {
        Some("Warning: quota over 90%"@)
    } else if 4 * value >= 3 * max {
        Some("Warning: quota over 75%"@)
    } else {
        None
    }
}

/// The warning due for `value` against quota `max`, if any.
pub fn quota_warning(value: usize, max: usize) -> (r: Option<&'static str>)
    ensures
        r is None <==> quota_message(value as nat, max as nat) is None,
        r is Some ==> quota_message(value as nat, max as nat) == Some(r->0@),
{
    let v = value as u128;
    let m = max as u128;
    if max == 0 {
        if value == 0 {
            None
        } else {
            Some("Oops: over quota")
        }
    } else if v >= m {
        Some("Oops: over quota")
    } else if 10 * v >= 9 * m {
        Some("Warning: quota over 90%")
    } else if 4 * v >= 3 * m {
        Some("Warning: quota over 75%")
    } else {
        None
    }
}

/// Tracks a value against a quota and warns through a messenger.
pub struct LimitTracker<'a, T: Messenger> {
    messenger: &'a T,
    value: usize,
    max: usize,
}

impl<'a, T: Messenger> LimitTracker<'a, T> {
    pub closed spec fn value_view(&self) -> usize {
        self.value
    }

    pub closed spec fn max_view(&self) -> usize {
        self.max
    }

    pub fn new(messenger: &'a T, max: usize) -> (r: LimitTracker<'a, T>)
        ensures
            r.value_view() == 0,
            r.max_view() == max,
    {
        LimitTracker { messenger, value: 0, max }
    }

    /// Records `value`, and sends the warning that `quota_warning` gives for
    /// it, if any.
    pub fn set_value(&mut self, value: usize)
        ensures
            final(self).value_view() == value,
            final(self).max_view() == old(self).max_view(),
    {
        self.value = value;
        match quota_warning(self.value, self.max) {
            Some(msg) => self.messenger.send(msg),
            None => {},
        }
    }
}

} // verus!
