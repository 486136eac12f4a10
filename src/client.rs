use vstd::prelude::*;
use crate::transaction::Transaction;

verus! {

/// A registered account: its email (the key), its password, and what it has acquired.
#[derive(Debug)]
pub struct Client {
    email: String,
    password: String,
    history: Vec<Transaction>,
}

impl Client {
    pub closed spec fn email_view(&self) -> Seq<char> {
        self.email@
    }

    pub closed spec fn password_view(&self) -> Seq<char> {
        self.password@
    }

    pub closed spec fn history_view(&self) -> Seq<Transaction> {
        self.history@
    }

    /// Equal email, password and history.
    pub open spec fn same_as(&self, other: &Client) -> bool {
        &&& other.email_view() == self.email_view()
        &&& other.password_view() == self.password_view()
        &&& other.history_view() == self.history_view()
    }

    /// The same account with `t` appended to its history.
    pub open spec fn recorded(&self, other: &Client, t: Transaction) -> bool {
        &&& other.email_view() == self.email_view()
        &&& other.password_view() == self.password_view()
        &&& other.history_view() == self.history_view().push(t)
    }

    pub fn new(email: String, password: String) -> (r: Client)
        ensures
            r.email_view() == email@,
            r.password_view() == password@,
            r.history_view() == Seq::<Transaction>::empty(),
    {
        Client { email, password, history: Vec::new() }
    }

    /// Whether this account's email is `email`.
    pub fn has_email(&self, email: &String) -> (r: bool)
        ensures
            r == (self.email_view() == email@),
    {
        self.email == *email
    }

    pub fn email(&self) -> (r: &str)
        ensures
            r@ == self.email_view(),
    {
        self.email.as_str()
    }

    pub fn password(&self) -> (r: &str)
        ensures
            r@ == self.password_view(),
    {
        self.password.as_str()
    }

    pub fn history(&self) -> (r: &Vec<Transaction>)
        ensures
            r@ == self.history_view(),
    {
        &self.history
    }

    /// Appends `t` to the history.
    pub fn record(&mut self, t: Transaction)
        ensures
            old(self).recorded(final(self), t),
    {
        self.history.push(t);
    }
}

impl Clone for Client {
    fn clone(&self) -> (r: Self)
        ensures
            self.same_as(&r),
    {
        let history = self.history.clone();
        assert forall|i: int| 0 <= i < history@.len() implies history@[i] == self.history@[i] by {
            assert(cloned::<Transaction>(self.history[i], history[i]));
        }
        assert(history@ =~= self.history@);
        Client { email: self.email.clone(), password: self.password.clone(), history }
    }
}

} // verus!
