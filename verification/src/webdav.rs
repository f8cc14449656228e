//! Who may use the server.

use vstd::prelude::*;

verus! {

/// What a request is let in as.
pub enum Access {
    /// The server asks for no name: everybody is let in.
    Anonymous,
    /// The request gave the name and password that the server asks for.
    Principal(String),
    /// The request gave none, or others: it is answered with 401.
    Denied,
}

pub ghost enum AccessView {
    Anonymous,
    Principal(Seq<char>),
    Denied,
}

impl View for Access {
    type V = AccessView;

    open spec fn view(&self) -> AccessView {
        match self {
            Access::Anonymous => AccessView::Anonymous,
            Access::Principal(user) => AccessView::Principal(user@),
            Access::Denied => AccessView::Denied,
        }
    }
}

/// What a request is let in as. The server asks for a name only where it
/// was given both a name and a password to ask for.
pub open spec fn access_for(
    auth_user: Option<Seq<char>>,
    auth_password: Option<Seq<char>>,
    presented: Option<(Seq<char>, Seq<char>)>,
) -> AccessView {
    match (auth_user, auth_password) {
        (Some(user), Some(password)) => match presented {
            Some((name, word)) => if name == user && word == password {
                AccessView::Principal(name)
            } else {
                AccessView::Denied
            },
            None => AccessView::Denied,
        },
        _ => AccessView::Anonymous,
    }
}

pub open spec fn text_view(text: Option<String>) -> Option<Seq<char>> {
    match text {
        Some(t) => Some(t@),
        None => None,
    }
}

pub open spec fn presented_view(presented: Option<(String, String)>) -> Option<
    (Seq<char>, Seq<char>),
> {
    match presented {
        Some((name, word)) => Some((name@, word@)),
        None => None,
    }
}

/// What a request is let in as, given the name and password that its
/// `Authorization` header holds, if it holds any.
pub fn authorize(
    auth_user: &Option<String>,
    auth_password: &Option<String>,
    presented: &Option<(String, String)>,
) -> (access: Access)
    ensures
        access@ == access_for(
            text_view(*auth_user),
            text_view(*auth_password),
            presented_view(*presented),
        ),
{
    match (auth_user, auth_password) {
        (Some(user), Some(password)) => match presented {
            Some((name, word)) => {
                if *name == *user && *word == *password {
                    Access::Principal(name.clone())
                } else {
                    Access::Denied
                }
            },
            None => Access::Denied,
        },
        _ => Access::Anonymous,
    }
}

} // verus!
