use vstd::prelude::*;
use crate::parse::{amount_of, id_of, parse_amount, parse_id};
use crate::server_type::{ServerType, parse_server_type};

verus! {

/// A request of the line protocol, with its arguments checked.
#[derive(Debug)]
pub enum Command {
    Register(String, String),
    Login(String, String),
    /// The stock of every type.
    Ls,
    /// The caller's own reservations.
    LsMine,
    Buy(ServerType),
    Profile,
    Drop(u32),
    Auction(ServerType, i32),
    Quit,
}

/// Why a request line was not turned into a command.
#[derive(Debug)]
pub enum CommandError {
    /// The line holds no word.
    Blank,
    /// The command needs a logged-in account.
    LoginRequired,
    RegisterUsage,
    LoginUsage,
    LsUsage,
    BuyUsage,
    DropUsage,
    AuctionUsage,
    InvalidServerType,
    /// The id argument, which is not a reservation id.
    InvalidId(String),
    InvalidAmount,
    /// The first word, which names no command.
    UnknownCommand(String),
}

fn is_word(s: &String, word: &str) -> (r: bool)
    ensures
        r == (s@ == word@),
{
    *s == word.to_owned()
}

/// Reads a request from its words. Commands that act for an account ask for a login
/// before they look at their arguments.
pub fn parse_command(words: &Vec<String>, logged_in: bool) -> (r: Result<Command, CommandError>)
    ensures
        ({
            let w = words@;
            if w.len() == 0 {
                r matches Err(CommandError::Blank)
            } else if w[0]@ == "quit"@ {
                r matches Ok(Command::Quit)
            } else if w[0]@ == "register"@ || w[0]@ == "login"@ {
                if w.len() < 3 {
                    if w[0]@ == "register"@ {
                        r matches Err(CommandError::RegisterUsage)
                    } else {
                        r matches Err(CommandError::LoginUsage)
                    }
                } else if w[0]@ == "register"@ {
                    (r matches Ok(Command::Register(e, p)) && e@ == w[1]@ && p@ == w[2]@)
                } else {
                    (r matches Ok(Command::Login(e, p)) && e@ == w[1]@ && p@ == w[2]@)
                }
            } else if w[0]@ == "ls"@ {
                if w.len() == 1 {
                    r matches Ok(Command::Ls)
                } else if w[1]@ != "-m"@ {
                    r matches Err(CommandError::LsUsage)
                } else if !logged_in {
                    r matches Err(CommandError::LoginRequired)
                } else {
                    r matches Ok(Command::LsMine)
                }
            } else if w[0]@ == "buy"@ || w[0]@ == "profile"@ || w[0]@ == "drop"@ || w[0]@
                == "auction"@ {
                if !logged_in {
                    r matches Err(CommandError::LoginRequired)
                } else if w[0]@ == "profile"@ {
                    r matches Ok(Command::Profile)
                } else if w[0]@ == "buy"@ {
                    if w.len() < 2 {
                        r matches Err(CommandError::BuyUsage)
                    } else {
                        match parse_server_type(w[1]@) {
                            None => r matches Err(CommandError::InvalidServerType),
                            Some(st) => r matches Ok(Command::Buy(t)) && t == st,
                        }
                    }
                } else if w[0]@ == "drop"@ {
                    if w.len() < 2 {
                        r matches Err(CommandError::DropUsage)
                    } else {
                        match id_of(w[1]@) {
                            Err(_) => (r matches Err(CommandError::InvalidId(s)) && s@ == w[1]@),
                            Ok(id) => r matches Ok(Command::Drop(i)) && i == id,
                        }
                    }
                } else if w.len() < 3 {
                    r matches Err(CommandError::AuctionUsage)
                } else {
                    match (parse_server_type(w[1]@), amount_of(w[2]@)) {
                        (None, _) => r matches Err(CommandError::InvalidServerType),
                        (Some(_), Err(_)) => r matches Err(CommandError::InvalidAmount),
                        (Some(st), Ok(v)) => (r matches Ok(Command::Auction(t, a)) && t == st && a
                            == v),
                    }
                }
            } else {
                (r matches Err(CommandError::UnknownCommand(s)) && s@ == w[0]@)
            }
        }),
{
    if words.len() == 0 {
        return Err(CommandError::Blank);
    }
    let verb = &words[0];
    let n = words.len();
    if is_word(verb, "quit") {
        Ok(Command::Quit)
    } else if is_word(verb, "register") || is_word(verb, "login") {
        let register = is_word(verb, "register");
        if n < 3 {
            if register {
                Err(CommandError::RegisterUsage)
            } else {
                Err(CommandError::LoginUsage)
            }
        } else if register {
            Ok(Command::Register(words[1].clone(), words[2].clone()))
        } else {
            Ok(Command::Login(words[1].clone(), words[2].clone()))
        }
    } else if is_word(verb, "ls") {
        if n == 1 {
            Ok(Command::Ls)
        } else if !is_word(&words[1], "-m") {
            Err(CommandError::LsUsage)
        } else if !logged_in {
            Err(CommandError::LoginRequired)
        } else {
            Ok(Command::LsMine)
        }
    } else if is_word(verb, "buy") || is_word(verb, "profile") || is_word(verb, "drop")
        || is_word(verb, "auction") {
        if !logged_in {
            Err(CommandError::LoginRequired)
        } else if is_word(verb, "profile") {
            Ok(Command::Profile)
        } else if is_word(verb, "buy") {
            if n < 2 {
                Err(CommandError::BuyUsage)
            } else {
                match ServerType::from_str(words[1].as_str()) {
                    None => Err(CommandError::InvalidServerType),
                    Some(st) => Ok(Command::Buy(st)),
                }
            }
        } else if is_word(verb, "drop") {
            if n < 2 {
                Err(CommandError::DropUsage)
            } else {
                match parse_id(words[1].as_str()) {
                    Err(_) => Err(CommandError::InvalidId(words[1].clone())),
                    Ok(id) => Ok(Command::Drop(id)),
                }
            }
        } else if n < 3 {
            Err(CommandError::AuctionUsage)
        } else {
            match ServerType::from_str(words[1].as_str()) {
                None => Err(CommandError::InvalidServerType),
                Some(st) => match parse_amount(words[2].as_str()) {
                    Err(_) => Err(CommandError::InvalidAmount),
                    Ok(v) => Ok(Command::Auction(st, v)),
                },
            }
        }
    } else {
        Err(CommandError::UnknownCommand(verb.clone()))
    }
}

} // verus!
