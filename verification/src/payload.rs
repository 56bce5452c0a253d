//! What workers and the coordinator say to each other: jobs handed out and
//! crawl results handed back.

use vstd::prelude::*;

verus! {

/// The size of an image or a video frame, in pixels.
#[derive(Clone, Copy, PartialEq, Eq, Debug, Structural)]
pub struct Size {
    pub width: i32,
    pub height: i32,
}

/// A playing time, in seconds and nanoseconds.
#[derive(Clone, Copy, PartialEq, Eq, Debug, Structural)]
pub struct Length {
    pub seconds: i64,
    pub nanos: i32,
}

/// What a site's web manifest says of the site.
#[derive(Debug)]
pub struct Manifest {
    pub name: Option<String>,
    pub short_name: Option<String>,
    pub description: Option<String>,
    pub categories: Vec<String>,
}

pub struct ManifestModel {
    pub name: Option<Seq<char>>,
    pub short_name: Option<Seq<char>>,
    pub description: Option<Seq<char>>,
    pub categories: Seq<Seq<char>>,
}

impl DeepView for Manifest {
    type V = ManifestModel;

    open spec fn deep_view(&self) -> ManifestModel {
        ManifestModel {
            name: self.name.deep_view(),
            short_name: self.short_name.deep_view(),
            description: self.description.deep_view(),
            categories: self.categories.deep_view(),
        }
    }
}

/// An image that a page shows.
#[derive(Debug)]
pub struct ImageEntry {
    pub image_url: String,
    pub size: Option<Size>,
    pub alt_text: Option<String>,
}

pub struct ImageEntryModel {
    pub image_url: Seq<char>,
    pub size: Option<Size>,
    pub alt_text: Option<Seq<char>>,
}

impl DeepView for ImageEntry {
    type V = ImageEntryModel;

    open spec fn deep_view(&self) -> ImageEntryModel {
        ImageEntryModel {
            image_url: self.image_url@,
            size: self.size,
            alt_text: self.alt_text.deep_view(),
        }
    }
}

/// What was read from an HTML page.
#[derive(Debug)]
pub struct HtmlBody {
    pub title: Option<String>,
    pub description: Option<String>,
    pub icon_url: Option<String>,
    pub text_fields: Vec<String>,
    pub sections: Vec<String>,
    pub keywords: Vec<String>,
    pub manifest: Option<Manifest>,
    pub images: Vec<ImageEntry>,
}

pub struct HtmlBodyModel {
    pub title: Option<Seq<char>>,
    pub description: Option<Seq<char>>,
    pub icon_url: Option<Seq<char>>,
    pub text_fields: Seq<Seq<char>>,
    pub sections: Seq<Seq<char>>,
    pub keywords: Seq<Seq<char>>,
    pub manifest: Option<ManifestModel>,
    pub images: Seq<ImageEntryModel>,
}

impl DeepView for HtmlBody {
    type V = HtmlBodyModel;

    open spec fn deep_view(&self) -> HtmlBodyModel {
        HtmlBodyModel {
            title: self.title.deep_view(),
            description: self.description.deep_view(),
            icon_url: self.icon_url.deep_view(),
            text_fields: self.text_fields.deep_view(),
            sections: self.sections.deep_view(),
            keywords: self.keywords.deep_view(),
            manifest: self.manifest.deep_view(),
            images: self.images.deep_view(),
        }
    }
}

/// What a fetched resource turned out to be.
#[derive(Debug)]
pub enum Body {
    Html(HtmlBody),
    Image { size: Option<Size> },
    Video { size: Option<Size>, length: Option<Length> },
    Audio { length: Option<Length> },
    Manifest(Manifest),
}

pub enum BodyModel {
    Html(HtmlBodyModel),
    Image { size: Option<Size> },
    Video { size: Option<Size>, length: Option<Length> },
    Audio { length: Option<Length> },
    Manifest(ManifestModel),
}

impl DeepView for Body {
    type V = BodyModel;

    open spec fn deep_view(&self) -> BodyModel {
        match self {
            Body::Html(html) => BodyModel::Html(html.deep_view()),
            Body::Image { size } => BodyModel::Image { size: *size },
            Body::Video { size, length } => BodyModel::Video { size: *size, length: *length },
            Body::Audio { length } => BodyModel::Audio { length: *length },
            Body::Manifest(manifest) => BodyModel::Manifest(manifest.deep_view()),
        }
    }
}

/// The result of a crawl that went through.
#[derive(Debug)]
pub struct OkPayload {
    pub status: i32,
    pub mime_type: String,
    pub linked_urls: Vec<String>,
    pub body: Option<Body>,
}

pub struct OkPayloadModel {
    pub status: i32,
    pub mime_type: Seq<char>,
    pub linked_urls: Seq<Seq<char>>,
    pub body: Option<BodyModel>,
}

impl DeepView for OkPayload {
    type V = OkPayloadModel;

    open spec fn deep_view(&self) -> OkPayloadModel {
        OkPayloadModel {
            status: self.status,
            mime_type: self.mime_type@,
            linked_urls: self.linked_urls.deep_view(),
            body: self.body.deep_view(),
        }
    }
}

/// What a worker reports of a job: its result, or that it failed.
#[derive(Debug)]
pub enum JobResult {
    Done(OkPayload),
    Failed,
}

pub enum JobResultModel {
    Done(OkPayloadModel),
    Failed,
}

impl DeepView for JobResult {
    type V = JobResultModel;

    open spec fn deep_view(&self) -> JobResultModel {
        match self {
            JobResult::Done(payload) => JobResultModel::Done(payload.deep_view()),
            JobResult::Failed => JobResultModel::Failed,
        }
    }
}

/// A job as it is handed to a worker, with the lease under which the
/// worker holds it. A lease is known by the instant at which it was granted
/// or last renewed.
#[derive(Debug)]
pub struct GetJobResponse {
    pub id: i32,
    pub url: String,
    pub lease: i64,
}

/// A worker's request to record the result of a job that it holds under
/// `lease`.
#[derive(Debug)]
pub struct ReturnJobRequest {
    pub id: i32,
    pub url: String,
    pub lease: i64,
    pub result: Option<JobResult>,
}

/// A worker's request to renew the lease `lease` on a job.
#[derive(Debug)]
pub struct KeepAliveJobRequest {
    pub id: i32,
    pub url: String,
    pub lease: i64,
}

/// Why the coordinator or a worker refused or gave up.
#[derive(Clone, Copy, PartialEq, Eq, Debug, Structural)]
pub enum ServiceError {
    /// No job can be handed out right now.
    QueueEmpty,
    /// The URL of the request cannot be read.
    MalformedUrl,
    /// No job has this id and this URL.
    TaskNotFound,
    /// The job is not being worked on.
    NotActive,
    /// The lease on the job has run out.
    TaskExpired,
    /// The request lacks its query.
    MissingQuery,
    /// The URL is in the queue already.
    AlreadyQueued,
    /// A table of the store is full.
    StoreFull,
    /// The search index names a row that the store does not hold.
    Desync,
    /// The coordinator gave no job in any of the attempts allowed.
    Unreachable,
}

/// The status code under which each error is reported.
pub open spec fn code_of(error: ServiceError) -> Code {
    match error {
        ServiceError::QueueEmpty => Code::ResourceExhausted,
        ServiceError::MalformedUrl => Code::InvalidArgument,
        ServiceError::TaskNotFound => Code::InvalidArgument,
        ServiceError::NotActive => Code::InvalidArgument,
        ServiceError::TaskExpired => Code::InvalidArgument,
        ServiceError::MissingQuery => Code::InvalidArgument,
        ServiceError::AlreadyQueued => Code::Internal,
        ServiceError::StoreFull => Code::Internal,
        ServiceError::Desync => Code::Internal,
        ServiceError::Unreachable => Code::Unavailable,
    }
}

/// The text that goes with each error.
pub open spec fn message_of(error: ServiceError) -> Seq<char> {
    match error {
        ServiceError::QueueEmpty => "No more Jobs in queue"@,
        ServiceError::MalformedUrl => "malformed url"@,
        ServiceError::TaskNotFound => "task not found"@,
        ServiceError::NotActive => "not an active task"@,
        ServiceError::TaskExpired => "task expired"@,
        ServiceError::MissingQuery => "must have query"@,
        ServiceError::AlreadyQueued => "url already in queue"@,
        ServiceError::StoreFull => "store is full"@,
        ServiceError::Desync => "desync between store and search index"@,
        ServiceError::Unreachable => "cant get job from server"@,
    }
}

impl ServiceError {
    /// The status code under which the error is reported.
    pub fn code(&self) -> (code: Code)
        ensures
            code == code_of(*self),
    {
        match self {
            ServiceError::QueueEmpty => Code::ResourceExhausted,
            ServiceError::MalformedUrl => Code::InvalidArgument,
            ServiceError::TaskNotFound => Code::InvalidArgument,
            ServiceError::NotActive => Code::InvalidArgument,
            ServiceError::TaskExpired => Code::InvalidArgument,
            ServiceError::MissingQuery => Code::InvalidArgument,
            ServiceError::AlreadyQueued => Code::Internal,
            ServiceError::StoreFull => Code::Internal,
            ServiceError::Desync => Code::Internal,
            ServiceError::Unreachable => Code::Unavailable,
        }
    }

    /// The text that goes with the error.
    pub fn message(&self) -> (text: String)
        ensures
            text@ == message_of(*self),
    {
        let text = match self {
            ServiceError::QueueEmpty => "No more Jobs in queue",
            ServiceError::MalformedUrl => "malformed url",
            ServiceError::TaskNotFound => "task not found",
            ServiceError::NotActive => "not an active task",
            ServiceError::TaskExpired => "task expired",
            ServiceError::MissingQuery => "must have query",
            ServiceError::AlreadyQueued => "url already in queue",
            ServiceError::StoreFull => "store is full",
            ServiceError::Desync => "desync between store and search index",
            ServiceError::Unreachable => "cant get job from server",
        };
        text.to_owned()
    }
}

/// The status codes under which the coordinator reports errors.
#[derive(Clone, Copy, PartialEq, Eq, Debug, Structural)]
pub enum Code {
    ResourceExhausted,
    InvalidArgument,
    Internal,
    Unavailable,
}

} // verus!
