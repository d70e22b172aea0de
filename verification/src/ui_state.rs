//! State of the interactive view: the current record set and the scroll
//! offsets, with every movement clamped to the record count. The terminal
//! loop itself lives outside the library; it only applies these steps.

use vstd::prelude::*;

use crate::records::PortInfo;

verus! {

/// The interactive view's state: the records on show and the two scroll
/// offsets.
pub struct AppState {
    pub ports: Vec<PortInfo>,
    pub scroll_position: usize,
    pub horizontal_scroll: usize,
}

impl AppState {
    /// A fresh view over the given records, scrolled to the origin.
    pub fn new(ports: Vec<PortInfo>) -> (r: AppState)
        ensures
            r.ports == ports,
            r.scroll_position == 0,
            r.horizontal_scroll == 0,
    {
        AppState { ports, scroll_position: 0, horizontal_scroll: 0 }
    }

    /// Clamps the scroll offset so that a window of `visible` rows never
    /// reaches past the records.
    pub fn clamp_to_view(&mut self, visible: usize)
        ensures
            final(self).ports == old(self).ports,
            final(self).horizontal_scroll == old(self).horizontal_scroll,
            final(self).scroll_position == if old(self).scroll_position + visible > old(
                self,
            ).ports@.len() {
                if old(self).ports@.len() >= visible {
                    old(self).ports@.len() - visible
                } else {
                    0
                }
            } else {
                old(self).scroll_position as int
            },
    {
        let len = self.ports.len();
        if self.scroll_position > len || visible > len - self.scroll_position {
            self.scroll_position = if len >= visible {
                len - visible
            } else {
                0
            };
        }
    }

    /// Replaces the records after a refresh, pulling the scroll offset
    /// back onto the last record when it now lies past the end.
    pub fn set_ports(&mut self, ports: Vec<PortInfo>)
        ensures
            final(self).ports == ports,
            final(self).horizontal_scroll == old(self).horizontal_scroll,
            final(self).scroll_position == if old(self).scroll_position >= ports@.len() {
                if ports@.len() >= 1 {
                    ports@.len() - 1
                } else {
                    0
                }
            } else {
                old(self).scroll_position as int
            },
    {
        self.ports = ports;
        if self.scroll_position >= self.ports.len() {
            let len = self.ports.len();
            self.scroll_position = if len >= 1 {
                len - 1
            } else {
                0
            };
        }
    }

    /// One row down, never past the last record.
    pub fn scroll_down(&mut self)
        ensures
            final(self).ports == old(self).ports,
            final(self).horizontal_scroll == old(self).horizontal_scroll,
            final(self).scroll_position == if old(self).scroll_position + 1 < old(
                self,
            ).ports@.len() {
                old(self).scroll_position + 1
            } else {
                old(self).scroll_position as int
            },
    {
        let len = self.ports.len();
        if self.scroll_position < len && self.scroll_position + 1 < len {
            self.scroll_position = self.scroll_position + 1;
        }
    }

    /// One row up, never before the first.
    pub fn scroll_up(&mut self)
        ensures
            final(self).ports == old(self).ports,
            final(self).horizontal_scroll == old(self).horizontal_scroll,
            final(self).scroll_position == if old(self).scroll_position >= 1 {
                old(self).scroll_position - 1
            } else {
                0
            },
    {
        if self.scroll_position >= 1 {
            self.scroll_position = self.scroll_position - 1;
        }
    }

    /// One column left, never before the first.
    pub fn scroll_left(&mut self)
        ensures
            final(self).ports == old(self).ports,
            final(self).scroll_position == old(self).scroll_position,
            final(self).horizontal_scroll == if old(self).horizontal_scroll >= 1 {
                old(self).horizontal_scroll - 1
            } else {
                0
            },
    {
        if self.horizontal_scroll >= 1 {
            self.horizontal_scroll = self.horizontal_scroll - 1;
        }
    }

    /// One column right; the offset saturates rather than wrapping.
    pub fn scroll_right(&mut self)
        ensures
            final(self).ports == old(self).ports,
            final(self).scroll_position == old(self).scroll_position,
            final(self).horizontal_scroll == if old(self).horizontal_scroll < usize::MAX {
                old(self).horizontal_scroll + 1
            } else {
                old(self).horizontal_scroll as int
            },
    {
        if self.horizontal_scroll < usize::MAX {
            self.horizontal_scroll = self.horizontal_scroll + 1;
        }
    }

    /// One window of `visible` rows down, clamped so the window keeps
    /// records in view.
    pub fn page_down(&mut self, visible: usize)
        ensures
            final(self).ports == old(self).ports,
            final(self).horizontal_scroll == old(self).horizontal_scroll,
            final(self).scroll_position == {
                let bound: int = if old(self).ports@.len() >= visible {
                    old(self).ports@.len() - visible
                } else {
                    0
                };
                if old(self).scroll_position + visible <= bound {
                    old(self).scroll_position + visible
                } else {
                    bound
                }
            },
    {
        let len = self.ports.len();
        let bound: usize = if len >= visible {
            len - visible
        } else {
            0
        };
        if bound >= visible && self.scroll_position <= bound - visible {
            self.scroll_position = self.scroll_position + visible;
        } else {
            self.scroll_position = bound;
        }
    }

    /// One window of `visible` rows up, never before the first record.
    pub fn page_up(&mut self, visible: usize)
        ensures
            final(self).ports == old(self).ports,
            final(self).horizontal_scroll == old(self).horizontal_scroll,
            final(self).scroll_position == if old(self).scroll_position >= visible {
                old(self).scroll_position - visible
            } else {
                0
            },
    {
        if self.scroll_position >= visible {
            self.scroll_position = self.scroll_position - visible;
        } else {
            self.scroll_position = 0;
        }
    }

    /// Jumps to the first record.
    pub fn scroll_home(&mut self)
        ensures
            final(self).ports == old(self).ports,
            final(self).horizontal_scroll == old(self).horizontal_scroll,
            final(self).scroll_position == 0,
    {
        self.scroll_position = 0;
    }

    /// Jumps so the last window of `visible` rows is in view.
    pub fn scroll_end(&mut self, visible: usize)
        ensures
            final(self).ports == old(self).ports,
            final(self).horizontal_scroll == old(self).horizontal_scroll,
            final(self).scroll_position == if old(self).ports@.len() >= visible {
                old(self).ports@.len() - visible
            } else {
                0
            },
    {
        let len = self.ports.len();
        self.scroll_position = if len >= visible {
            len - visible
        } else {
            0
        };
    }
}

} // verus!
