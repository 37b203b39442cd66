use vstd::prelude::*;

verus! {

/// The kinds of window that the simulator shows.
#[derive(Debug, Clone, Copy, PartialEq, Eq, Structural)]
pub enum Kind {
    Menu,
    Tasks,
    Detail,
    Grid,
    Register,
}

impl Kind {
    /// The title of a window of this kind.
    pub fn title(self) -> (r: &'static str)
        ensures
            r@ == self.title_spec(),
    {
        match self {
            Kind::Menu => "Menu",
            Kind::Tasks => "F4 - Lista de Processos",
            Kind::Detail => "F5 - Detalhes do PID",
            Kind::Grid => "F6 - Memória",
            Kind::Register => "Novo Processo",
        }
    }

    /// The window that the function key `F<number>` opens: F4 the process
    /// list, F5 the detail view, F6 the memory grid; other keys none.
    pub fn from_function_key(number: u8) -> (r: Option<Kind>)
        ensures
            r == match number {
                4 => Some(Kind::Tasks),
                5 => Some(Kind::Detail),
                6 => Some(Kind::Grid),
                _ => None::<Kind>,
            },
    {
        match number {
            4 => Some(Kind::Tasks),
            5 => Some(Kind::Detail),
            6 => Some(Kind::Grid),
            _ => None,
        }
    }
}

/// The title of a window whose kind is known, or a generic title for an
/// unknown window.
pub fn window_title(kind: Option<Kind>) -> (r: &'static str)
    ensures
        r@ == match kind {
            Some(k) => k.title_spec(),
            None => "Multijanelas"@,
        },
{
    match kind {
        Some(k) => k.title(),
        None => "Multijanelas",
    }
}

impl Kind {
    /// The title of a window of this kind, as characters.
    pub open spec fn title_spec(self) -> Seq<char> {
        match self {
            Kind::Menu => "Menu"@,
            Kind::Tasks => "F4 - Lista de Processos"@,
            Kind::Detail => "F5 - Detalhes do PID"@,
            Kind::Grid => "F6 - Memória"@,
            Kind::Register => "Novo Processo"@,
        }
    }
}

} // verus!
