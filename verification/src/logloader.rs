//! Reads logs page by page. The loader decides what to ask for next and
//! keeps the cursor; sending the query is left to the caller.

use crate::cursor::ServiceCursor;
use vstd::prelude::*;

verus! {

/// One line of a log.
#[derive(Debug)]
pub struct GenericLog {
    pub ts: i64,
    pub request_id: String,
    pub seq: i64,
    pub message: String,
}

/// One page of a log, with the cursor of the page that follows, if any.
#[derive(Debug)]
pub struct GenericLogList {
    pub data: Vec<GenericLog>,
    pub cursor: Option<String>,
}

/// A request for one page of logs.
#[derive(Debug)]
pub enum LogQuery {
    /// Logs of the current deployment of the application `id`.
    App { id: String, first: i64, before: Option<String> },
    /// Logs of the deployment `id`.
    Deployment { id: String, first: i64, before: Option<String> },
}

/// A request for one page of logs over plain sequences of characters.
pub enum LogQueryView {
    App { id: Seq<char>, first: int, before: Option<Seq<char>> },
    Deployment { id: Seq<char>, first: int, before: Option<Seq<char>> },
}

impl DeepView for LogQuery {
    type V = LogQueryView;

    open spec fn deep_view(&self) -> LogQueryView {
        match self {
            LogQuery::App { id, first, before } => LogQueryView::App {
                id: id@,
                first: *first as int,
                before: before.deep_view(),
            },
            LogQuery::Deployment { id, first, before } => LogQueryView::Deployment {
                id: id@,
                first: *first as int,
                before: before.deep_view(),
            },
        }
    }
}

/// The state of a paged read of the logs of an application, or of one of
/// its deployments.
pub struct LogLoader {
    pub cursor: ServiceCursor<String>,
    pub app_id: String,
    pub deployment_id: Option<String>,
}

impl LogLoader {
    /// A loader that stands before the first page.
    pub fn new(app_id: &str, deployment_id: Option<&str>) -> (loader: LogLoader)
        ensures
            loader.cursor is Initial,
            loader.app_id@ == app_id@,
            loader.deployment_id.deep_view() == deployment_id.deep_view(),
    {
        LogLoader {
            cursor: ServiceCursor::Initial,
            app_id: app_id.to_owned(),
            deployment_id: match deployment_id {
                Some(s) => Some(s.to_owned()),
                None => None,
            },
        }
    }

    /// The token that the next query carries.
    pub open spec fn token(self) -> Option<Seq<char>> {
        match self.cursor {
            ServiceCursor::Next(t) => Some(t@),
            _ => None,
        }
    }

    /// The query for the next page of `page_size` lines: nothing past the
    /// last page, else a query for the deployment where one is named and
    /// for the application where none is, with the cursor the last page
    /// gave.
    pub open spec fn query(self, page_size: u32) -> Option<LogQueryView> {
        if self.cursor is End {
            None
        } else {
            match self.deployment_id {
                Some(id) => Some(
                    LogQueryView::Deployment { id: id@, first: page_size as int, before: self.token() },
                ),
                None => Some(
                    LogQueryView::App { id: self.app_id@, first: page_size as int, before: self.token() },
                ),
            }
        }
    }

    /// What to ask the service for next, or nothing when the last page has
    /// been read.
    pub fn next_query(&self, page_size: u32) -> (query: Option<LogQuery>)
        ensures
            query.deep_view() == self.query(page_size),
    {
        if let ServiceCursor::End = self.cursor {
            return None;
        }
        let before = match self.cursor.as_request_cursor_ref() {
            Some(t) => Some(t.clone()),
            None => None,
        };
        let first: i64 = page_size as i64;
        match &self.deployment_id {
            Some(id) => Some(LogQuery::Deployment { id: id.clone(), first, before }),
            None => Some(LogQuery::App { id: self.app_id.clone(), first, before }),
        }
    }

    /// Takes in a page: the cursor moves on to the page that follows, or
    /// to the end where none follows, and the lines of the page are handed
    /// out.
    pub fn accept_page(&mut self, page: GenericLogList) -> (lines: Vec<GenericLog>)
        ensures
            lines == page.data,
            final(self).cursor == match page.cursor {
                Some(x) => ServiceCursor::Next(x),
                None => ServiceCursor::End,
            },
            final(self).app_id == old(self).app_id,
            final(self).deployment_id == old(self).deployment_id,
    {
        self.cursor = match page.cursor {
            Some(x) => ServiceCursor::Next(x),
            None => ServiceCursor::End,
        };
        page.data
    }
}

} // verus!
