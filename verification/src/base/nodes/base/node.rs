use core::cell::{BorrowError, BorrowMutError, Ref, RefCell, RefMut};
use vstd::prelude::*;

verus! {

#[verifier::external_type_specification]
#[verifier::external_body]
#[verifier::reject_recursive_types(T)]
pub struct ExRefCell<T: ?Sized>(RefCell<T>);

#[verifier::external_type_specification]
#[verifier::external_body]
#[verifier::reject_recursive_types(T)]
pub struct ExRef<'b, T: ?Sized>(Ref<'b, T>);

#[verifier::external_type_specification]
#[verifier::external_body]
#[verifier::reject_recursive_types(T)]
pub struct ExRefMut<'b, T: ?Sized + 'b>(RefMut<'b, T>);

#[verifier::external_type_specification]
#[verifier::external_body]
pub struct ExBorrowError(BorrowError);

#[verifier::external_type_specification]
#[verifier::external_body]
pub struct ExBorrowMutError(BorrowMutError);

/// `RefCell::new`: a cell holding `value`. What a cell holds is not visible here,
/// so nothing is stated of the cell.
#[verifier::external_body]
fn refcell_new<T>(value: T) -> (cell: RefCell<T>) {
    RefCell::new(value)
}

/// `RefCell::try_borrow`: a shared borrow of what `cell` holds, refused while the
/// cell is borrowed mutably. Whether it is refused depends on the borrows alive at
/// the time, so nothing is stated of the result.
#[verifier::external_body]
fn refcell_try_borrow<'a, T>(cell: &'a RefCell<T>) -> (r: Result<Ref<'a, T>, BorrowError>) {
    cell.try_borrow()
}

/// `RefCell::try_borrow_mut`: an exclusive borrow of what `cell` holds, refused
/// while the cell is borrowed. Whether it is refused depends on the borrows alive
/// at the time, so nothing is stated of the result.
#[verifier::external_body]
fn refcell_try_borrow_mut<'a, T>(cell: &'a RefCell<T>) -> (r: Result<RefMut<'a, T>, BorrowMutError>) {
    cell.try_borrow_mut()
}

/// `Deref` of `Ref`: the value a shared borrow lends. What it lends is not visible
/// here, so nothing is stated of it.
#[verifier::external_body]
pub(crate) fn ref_get<'b, 'c, T>(guard: &'c Ref<'b, T>) -> (r: &'c T) {
    &**guard
}


/// `DerefMut` of `RefMut`: the place an exclusive borrow lends. What it holds is
/// not visible here, so nothing is stated of it.
#[verifier::external_body]
pub(crate) fn refmut_get_mut<'b, 'c, T>(guard: &'c mut RefMut<'b, T>) -> (r: &'c mut T) {
    &mut **guard
}

/// Puts `val` in the place an exclusive borrow lends and gives back what was there.
pub(crate) fn refmut_put<'b, T>(guard: &mut RefMut<'b, T>, val: T) -> (r: T) {
    let place = refmut_get_mut(guard);
    let mut value = val;
    core::mem::swap(place, &mut value);
    value
}

/// Why a process could not borrow a node.
#[derive(Debug)]
pub enum NodeBorrowError {
    /// A shared borrow was refused.
    Borrow(BorrowError),
    /// An exclusive borrow was refused.
    BorrowMut(BorrowMutError),
    /// A new value could not be written to a node.
    Write,
}

/// A node: a value shared by processes, borrowed at run time.
#[verifier::reject_recursive_types(T)]
pub struct Node<T> {
    ref_item: RefCell<T>,
}

impl<T> Node<T> {
    /// A node holding `value`.
    pub fn new(value: T) -> (n: Self) {
        Self { ref_item: refcell_new(value) }
    }

    /// A reference to this node.
    pub fn make_ref<'a>(&'a self) -> (r: NodeRef<'a, T>)
        ensures
            r.kernel() == self,
    {
        NodeRef::new(self)
    }
}

/// A reference to a node, through which processes borrow its value.
#[verifier::reject_recursive_types(T)]
pub struct NodeRef<'a, T> {
    kernel_ref: &'a Node<T>,
}

impl<'node_ref, T> NodeRef<'node_ref, T> {
    /// The node referred to.
    pub closed spec fn kernel(&self) -> &'node_ref Node<T> {
        self.kernel_ref
    }

    fn get_kernel(&self) -> (k: &Node<T>)
        ensures
            k == self.kernel(),
    {
        self.kernel_ref
    }

    pub fn new<'node_kernel: 'node_ref>(kernel_ref: &'node_kernel Node<T>) -> (r: Self)
        ensures
            r.kernel() == kernel_ref,
    {
        Self { kernel_ref }
    }

    /// A shared borrow of the node's value; refused while it is borrowed mutably.
    pub fn try_borrow<'a>(&'a self) -> (r: Result<Ref<'a, T>, BorrowError>) {
        refcell_try_borrow(&self.get_kernel().ref_item)
    }

    /// An exclusive borrow of the node's value; refused while it is borrowed.
    pub fn try_borrow_mut<'a>(&'a mut self) -> (r: Result<RefMut<'a, T>, BorrowMutError>)
        ensures
            final(self).kernel() == old(self).kernel(),
    {
        refcell_try_borrow_mut(&self.get_kernel().ref_item)
    }

    /// Puts `val` in the node and gives back the value it replaced; when the node
    /// cannot be borrowed, gives `val` back as the error.
    pub fn try_replace(&mut self, val: T) -> (r: Result<T, T>)
        ensures
            final(self).kernel() == old(self).kernel(),
            r matches Err(v) ==> v == val,
    {
        match self.try_borrow_mut() {
            Ok(mut guard) => Ok(refmut_put(&mut guard, val)),
            Err(_) => Err(val),
        }
    }
}

impl<T> Clone for NodeRef<'_, T> {
    /// Another reference to the same node.
    fn clone(&self) -> (r: Self)
        ensures
            r.kernel() == self.kernel(),
    {
        Self { kernel_ref: self.kernel_ref }
    }
}

/// Something that lends its value out mutably, with the possibility of refusal.
pub trait TryBorrowMut<T>: TryBorrow<T> {
    type TMutRef<'a> where Self: 'a;

    type TBorrowMutError;

    fn try_borrow_mut<'a>(&'a self) -> Result<Self::TMutRef<'a>, Self::TBorrowMutError>;
}

/// Something that lends its value out, with the possibility of refusal.
pub trait TryBorrow<T> {
    type TRef<'a> where Self: 'a;

    type TBorrowError;

    fn try_borrow<'a>(&'a self) -> Result<Self::TRef<'a>, Self::TBorrowError>;
}

} // verus!
