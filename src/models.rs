use vstd::prelude::*;

verus! {

/// A tracked application as stored: `id` is `None` until the store assigns one.
#[derive(Clone, Debug)]
pub struct DBApp {
    pub id: Option<i64>,
    pub name: String,
    pub path: String,
    pub icon: Option<Vec<u8>>,
}

/// The plain value of a stored application.
pub ghost struct AppView {
    pub id: Option<i64>,
    pub name: Seq<char>,
    pub path: Seq<char>,
    pub icon: Option<Seq<u8>>,
}

impl View for DBApp {
    type V = AppView;

    open spec fn view(&self) -> AppView {
        AppView {
            id: self.id,
            name: self.name@,
            path: self.path@,
            icon: match self.icon {
                Some(b) => Some(b@),
                None => None,
            },
        }
    }
}

impl DBApp {
    /// A copy with the same contents.
    pub fn duplicate(&self) -> (r: DBApp)
        ensures
            r@ == self@,
    {
        let icon = match &self.icon {
            Some(b) => {
                let mut c: Vec<u8> = Vec::new();
                let mut i: usize = 0;
                while i < b.len()
                    invariant
                        i <= b@.len(),
                        c@ == b@.subrange(0, i as int),
                    decreases b@.len() - i,
                {
                    c.push(b[i]);
                    i = i + 1;
                }
                assert(c@ == b@);
                Some(c)
            },
            None => None,
        };
        DBApp { id: self.id, name: self.name.clone(), path: self.path.clone(), icon }
    }
}

/// A focus event joined with the name of its application.
#[derive(Clone, Debug)]
pub struct WindowEventRow {
    pub app_id: i64,
    pub app_name: String,
    pub window_title: String,
    pub event_type: String,
    pub created_at_sec: i64,
}

impl WindowEventRow {
    /// A copy equal to `self`.
    pub fn duplicate(&self) -> (r: WindowEventRow)
        ensures
            r == *self,
    {
        WindowEventRow {
            app_id: self.app_id,
            app_name: self.app_name.clone(),
            window_title: self.window_title.clone(),
            event_type: self.event_type.clone(),
            created_at_sec: self.created_at_sec,
        }
    }
}

/// A stored screenshot with its encoded image bytes.
#[derive(Clone, Debug)]
pub struct ScreenshotBlob {
    pub id: i64,
    pub app_id: i64,
    pub created_at_sec: i64,
    pub png: Vec<u8>,
}

/// The plain value of a stored screenshot.
pub ghost struct ScreenshotView {
    pub id: i64,
    pub app_id: i64,
    pub created_at_sec: i64,
    pub png: Seq<u8>,
}

impl View for ScreenshotBlob {
    type V = ScreenshotView;

    open spec fn view(&self) -> ScreenshotView {
        ScreenshotView {
            id: self.id,
            app_id: self.app_id,
            created_at_sec: self.created_at_sec,
            png: self.png@,
        }
    }
}

impl ScreenshotBlob {
    /// A copy with the same contents.
    pub fn duplicate(&self) -> (r: ScreenshotBlob)
        ensures
            r@ == self@,
    {
        let mut c: Vec<u8> = Vec::new();
        let mut i: usize = 0;
        while i < self.png.len()
            invariant
                i <= self.png@.len(),
                c@ == self.png@.subrange(0, i as int),
            decreases self.png@.len() - i,
        {
            c.push(self.png[i]);
            i = i + 1;
        }
        assert(c@ == self.png@);
        ScreenshotBlob { id: self.id, app_id: self.app_id, created_at_sec: self.created_at_sec, png: c }
    }
}

/// What the window-system adapter reports about a focused window.
#[derive(Clone, Debug, PartialEq, Eq)]
pub struct WindowInfo {
    pub title: String,
    pub executable_name: String,
    pub executable_path: String,
}

/// Settings of the collector.
#[derive(Clone, Debug)]
pub struct Config {
    pub database_url: String,
}

} // verus!
