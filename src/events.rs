use vstd::prelude::*;
use vstd::string::StringExecFns;

verus! {

/// Win32 event code: a window gained the foreground.
pub const EVENT_SYSTEM_FOREGROUND: u32 = 3;

/// Win32 event code: a window is being minimized.
pub const EVENT_SYSTEM_MINIMIZESTART: u32 = 22;

/// Win32 event code: a minimized window was restored.
pub const EVENT_SYSTEM_MINIMIZEEND: u32 = 23;

/// Win32 event code: an object was created.
pub const EVENT_OBJECT_CREATE: u32 = 32768;

/// Win32 event code: an object was destroyed.
pub const EVENT_OBJECT_DESTROY: u32 = 32769;

/// Win32 event code: an object was hidden.
pub const EVENT_OBJECT_HIDE: u32 = 32771;

/// Win32 event code: an object received keyboard focus.
pub const EVENT_OBJECT_FOCUS: u32 = 32773;

/// Win32 event code: a window title changed.
pub const EVENT_SYSTEM_NAMECHANGE: u32 = 32780;

/// Code of the synthetic event recorded when the collector shuts down.
pub const EVENT_APPLICATION_CLOSE: u32 = 99999;

/// The readable name of an event code, where the code is one the collector knows.
pub open spec fn event_code_name(code: u32) -> Option<Seq<char>> {
    if code == EVENT_SYSTEM_NAMECHANGE {
        Some("EVENT_SYSTEM_NAMECHANGE"@)
    } else if code == EVENT_SYSTEM_FOREGROUND {
        Some("EVENT_SYSTEM_FOREGROUND"@)
    } else if code == EVENT_OBJECT_CREATE {
        Some("EVENT_OBJECT_CREATE"@)
    } else if code == EVENT_OBJECT_DESTROY {
        Some("EVENT_OBJECT_DESTROY"@)
    } else if code == EVENT_OBJECT_HIDE {
        Some("EVENT_OBJECT_HIDE"@)
    } else if code == EVENT_SYSTEM_MINIMIZEEND {
        Some("EVENT_SYSTEM_MINIMIZEEND"@)
    } else if code == EVENT_SYSTEM_MINIMIZESTART {
        Some("EVENT_SYSTEM_MINIMIZESTART"@)
    } else if code == EVENT_OBJECT_FOCUS {
        Some("EVENT_OBJECT_FOCUS"@)
    } else if code == EVENT_APPLICATION_CLOSE {
        Some("EVENT_APPLICATION_CLOSE"@)
    } else {
        None
    }
}

/// The decimal digit `d`.
pub open spec fn digit_char(d: nat) -> char {
    if d == 0 {
        '0'
    } else if d == 1 {
        '1'
    } else if d == 2 {
        '2'
    } else if d == 3 {
        '3'
    } else if d == 4 {
        '4'
    } else if d == 5 {
        '5'
    } else if d == 6 {
        '6'
    } else if d == 7 {
        '7'
    } else if d == 8 {
        '8'
    } else {
        '9'
    }
}

/// The decimal notation of `n`, without leading zeros.
pub open spec fn decimal(n: nat) -> Seq<char>
    decreases n,
{
    if n < 10 {
        seq![digit_char(n)]
    } else {
        decimal(n / 10).push(digit_char(n % 10))
    }
}

/// The label under which an event kind is stored: its name, or `EVENT_`
/// followed by the code in decimal for a code without a name.
pub open spec fn event_label(code: u32) -> Seq<char> {
    match event_code_name(code) {
        Some(n) => n,
        None => "EVENT_"@ + decimal(code as nat),
    }
}

fn digit_str(d: u32) -> (r: &'static str)
    requires
        d < 10,
    ensures
        r@ == seq![digit_char(d as nat)],
{
    proof {
        reveal_strlit("0");
        reveal_strlit("1");
        reveal_strlit("2");
        reveal_strlit("3");
        reveal_strlit("4");
        reveal_strlit("5");
        reveal_strlit("6");
        reveal_strlit("7");
        reveal_strlit("8");
        reveal_strlit("9");
    }
    let r = if d == 0 {
        "0"
    } else if d == 1 {
        "1"
    } else if d == 2 {
        "2"
    } else if d == 3 {
        "3"
    } else if d == 4 {
        "4"
    } else if d == 5 {
        "5"
    } else if d == 6 {
        "6"
    } else if d == 7 {
        "7"
    } else if d == 8 {
        "8"
    } else {
        "9"
    };
    assert(r@ =~= seq![digit_char(d as nat)]);
    r
}

fn append_decimal(s: &mut String, n: u32)
    ensures
        final(s)@ == old(s)@ + decimal(n as nat),
    decreases n,
{
    if n >= 10 {
        append_decimal(s, n / 10);
    }
    s.append(digit_str(n % 10));
    proof {
        if n >= 10 {
            assert(decimal(n as nat) == decimal((n / 10) as nat).push(digit_char((n % 10) as nat)));
        }
        assert(s@ =~= old(s)@ + decimal(n as nat));
    }
}

/// The kind of a window-system notification, as its numeric event code.
#[derive(Clone, Copy, Debug, PartialEq, Eq, Structural)]
pub struct WindowEventType {
    pub event_code: u32,
}

impl WindowEventType {
    pub fn new(event_code: u32) -> (r: WindowEventType)
        ensures
            r.event_code == event_code,
    {
        WindowEventType { event_code }
    }

    /// The readable name under which the event kind is stored; `None` for an
    /// unknown code.
    pub fn name(&self) -> (r: Option<String>)
        ensures
            r is None <==> event_code_name(self.event_code) is None,
            r matches Some(s) ==> event_code_name(self.event_code) == Some(s@),
    {
        let code = self.event_code;
        if code == EVENT_SYSTEM_NAMECHANGE {
            Some("EVENT_SYSTEM_NAMECHANGE".to_string())
        } else if code == EVENT_SYSTEM_FOREGROUND {
            Some("EVENT_SYSTEM_FOREGROUND".to_string())
        } else if code == EVENT_OBJECT_CREATE {
            Some("EVENT_OBJECT_CREATE".to_string())
        } else if code == EVENT_OBJECT_DESTROY {
            Some("EVENT_OBJECT_DESTROY".to_string())
        } else if code == EVENT_OBJECT_HIDE {
            Some("EVENT_OBJECT_HIDE".to_string())
        } else if code == EVENT_SYSTEM_MINIMIZEEND {
            Some("EVENT_SYSTEM_MINIMIZEEND".to_string())
        } else if code == EVENT_SYSTEM_MINIMIZESTART {
            Some("EVENT_SYSTEM_MINIMIZESTART".to_string())
        } else if code == EVENT_OBJECT_FOCUS {
            Some("EVENT_OBJECT_FOCUS".to_string())
        } else if code == EVENT_APPLICATION_CLOSE {
            Some("EVENT_APPLICATION_CLOSE".to_string())
        } else {
            None
        }
    }

    /// The label under which the event kind is stored.
    pub fn label(&self) -> (r: String)
        ensures
            r@ == event_label(self.event_code),
    {
        match self.name() {
            Some(n) => n,
            None => {
                let mut s = String::from_str("EVENT_");
                append_decimal(&mut s, self.event_code);
                s
            },
        }
    }
}

/// A window of some application came to the foreground.
#[derive(Clone, Debug)]
pub struct WindowForegroundEvent {
    pub name: String,
    pub title: String,
    pub path: String,
    /// Opaque identifier of the window.
    pub hwnd: isize,
}

impl WindowForegroundEvent {
    pub fn event(&self) -> (r: WindowEventType)
        ensures
            r.event_code == EVENT_SYSTEM_FOREGROUND,
    {
        WindowEventType { event_code: EVENT_SYSTEM_FOREGROUND }
    }
}

/// A notification handed from the window-system adapter to the processing loop.
#[derive(Clone, Debug)]
pub enum WindowEvent {
    Foreground(WindowForegroundEvent),
    /// Any other kind of notification; the processing loop drops it.
    Other(WindowEventType),
}

impl WindowEvent {
    pub open spec fn spec_event(&self) -> WindowEventType {
        match self {
            WindowEvent::Foreground(_) => WindowEventType { event_code: EVENT_SYSTEM_FOREGROUND },
            WindowEvent::Other(t) => *t,
        }
    }

    pub fn event(&self) -> (r: WindowEventType)
        ensures
            r == self.spec_event(),
    {
        match self {
            WindowEvent::Foreground(e) => e.event(),
            WindowEvent::Other(t) => *t,
        }
    }
}

} // verus!
