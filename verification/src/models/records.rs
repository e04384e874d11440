//! Student and payment records.

use vstd::prelude::*;

verus! {

#[derive(Clone, Copy, Debug, PartialEq, Eq, Structural)]
pub enum PaymentStatus {
    Paid,
    Pending,
}

#[derive(Clone, Debug)]
pub struct Payment {
    pub id: u128,
    pub reference: String,
    pub student_id: u128,
    pub user_id: Option<u128>,
    pub school_id: Option<u128>,
    pub email: String,
    pub amount_kobo: u64,
    pub status: PaymentStatus,
    pub created_at: i64,
    pub paid_at: Option<i64>,
}

impl Payment {
    /// A copy of the record.
    pub fn duplicate(&self) -> (r: Payment)
        ensures
            r == *self,
    {
        Payment {
            id: self.id,
            reference: self.reference.clone(),
            student_id: self.student_id,
            user_id: self.user_id,
            school_id: self.school_id,
            email: self.email.clone(),
            amount_kobo: self.amount_kobo,
            status: self.status,
            created_at: self.created_at,
            paid_at: self.paid_at,
        }
    }
}

#[derive(Clone, Debug)]
pub struct Student {
    pub id: u128,
    pub user_id: Option<u128>,
    pub school_id: Option<u128>,
    pub first_name: String,
    pub last_name: String,
    pub email: String,
    pub status: PaymentStatus,
    pub department: String,
    /// The reference of the student's latest payment.
    pub payment_reference: Option<String>,
}

impl Student {
    /// A copy of the record.
    pub fn duplicate(&self) -> (r: Student)
        ensures
            r == *self,
    {
        let payment_reference = match &self.payment_reference {
            Some(reference) => Some(reference.clone()),
            None => None,
        };
        Student {
            id: self.id,
            user_id: self.user_id,
            school_id: self.school_id,
            first_name: self.first_name.clone(),
            last_name: self.last_name.clone(),
            email: self.email.clone(),
            status: self.status,
            department: self.department.clone(),
            payment_reference,
        }
    }
}

#[derive(Clone, Debug)]
pub struct CreateStudentRequest {
    pub user_id: Option<u128>,
    pub school_id: Option<u128>,
    pub first_name: String,
    pub last_name: String,
    pub email: String,
    pub department: String,
}

} // verus!
