//! The messages of the protocol and their logical shape on the wire.
//!
//! Every message is one structured value, a list of three: the kind of the
//! message, the identifier of the call, and the content. The content of a
//! request is the list of the method's name, its positional arguments and
//! its keyword arguments; that of a result is the value returned; that of an
//! exception is the peer's message.

use crate::error::RpcError;
use crate::value::{clone_values, lemma_array_view, views_of, Mapping, Value, ValueView};
use vstd::prelude::*;

verus! {

/// Identifies a call among those issued on one connection.
pub type CallId = u64;

/// The kind of a message that asks for a call.
pub const REQUEST: i64 = 0;

/// The kind of a message that carries the value a call returned.
pub const RESULT: i64 = 1;

/// The kind of a message that carries the error a call ended in.
pub const EXCEPTION: i64 = 2;

/// The largest identifier that the wire can carry.
pub const MAX_CALL_ID: u64 = 0x7fff_ffff_ffff_ffff;

/// What a caller asks for: a method by name, with positional and keyword
/// arguments.
#[derive(Debug, PartialEq, Eq)]
pub struct Call {
    pub method: String,
    pub positional_args: Vec<Value>,
    pub keyword_args: Mapping,
}

/// What a `Call` holds, all the way down.
pub struct CallView {
    pub method: Seq<char>,
    pub positional_args: Seq<ValueView>,
    pub keyword_args: Seq<(Seq<char>, ValueView)>,
}

impl View for Call {
    type V = CallView;

    open spec fn view(&self) -> CallView {
        CallView {
            method: self.method@,
            positional_args: views_of(self.positional_args@),
            keyword_args: self.keyword_args.deep_members(),
        }
    }
}

impl Clone for Call {
    /// A copy that asks for the same call.
    fn clone(&self) -> (copy: Call)
        ensures
            copy@ == self@,
            copy.keyword_args.wf() == self.keyword_args.wf(),
    {
        Call {
            method: self.method.clone(),
            positional_args: clone_values(&self.positional_args),
            keyword_args: self.keyword_args.clone(),
        }
    }
}

impl Call {
    /// The call of `method` with the given arguments.
    pub fn new(method: String, positional_args: Vec<Value>, keyword_args: Mapping) -> (call: Call)
        ensures
            call.method == method,
            call.positional_args == positional_args,
            call.keyword_args == keyword_args,
    {
        Call { method, positional_args, keyword_args }
    }
}

/// A call as it is sent: the call and the identifier under which the
/// response will come back.
#[derive(Debug, PartialEq, Eq)]
pub struct Request {
    pub id: CallId,
    pub method: String,
    pub positional_args: Vec<Value>,
    pub keyword_args: Mapping,
}

/// The structured value that stands on the wire for the request with the
/// identifier `id` and the call `call`.
pub open spec fn request_on_wire(id: CallId, call: CallView) -> ValueView {
    ValueView::Array(
        seq![
            ValueView::Number(REQUEST as int),
            ValueView::Number(id as int),
            ValueView::Array(
                seq![
                    ValueView::String(call.method),
                    ValueView::Array(call.positional_args),
                    ValueView::Object(call.keyword_args),
                ],
            ),
        ],
    )
}

impl Request {
    /// The request that sends `call` under the identifier `id`.
    pub fn new(id: CallId, call: Call) -> (request: Request)
        ensures
            request.id == id,
            request.call() == call,
    {
        Request {
            id,
            method: call.method,
            positional_args: call.positional_args,
            keyword_args: call.keyword_args,
        }
    }

    /// The call that the request sends.
    pub open spec fn call(self) -> Call {
        Call {
            method: self.method,
            positional_args: self.positional_args,
            keyword_args: self.keyword_args,
        }
    }

    /// The structured value to serialize for this request. An identifier
    /// beyond what the wire can carry cannot be encoded.
    pub fn encode(self) -> (wire: Result<Value, RpcError>)
        ensures
            match wire {
                Ok(value) => self.id <= MAX_CALL_ID && value@ == request_on_wire(
                    self.id,
                    self.call()@,
                ),
                Err(error) => self.id > MAX_CALL_ID && error == RpcError::EncodeError,
            },
    {
        if self.id > MAX_CALL_ID {
            return Err(RpcError::EncodeError);
        }
        let ghost call = self.call()@;
        let mut content: Vec<Value> = Vec::new();
        content.push(Value::String(self.method));
        proof {
            lemma_array_view(self.positional_args);
        }
        content.push(Value::Array(self.positional_args));
        content.push(Value::Object(self.keyword_args));
        proof {
            lemma_array_view(content);
            assert(views_of(content@) =~= seq![
                ValueView::String(call.method),
                ValueView::Array(call.positional_args),
                ValueView::Object(call.keyword_args),
            ]);
        }
        let mut message: Vec<Value> = Vec::new();
        message.push(Value::Number(REQUEST));
        message.push(Value::Number(self.id as i64));
        message.push(Value::Array(content));
        proof {
            lemma_array_view(message);
            assert(views_of(message@) =~= seq![
                ValueView::Number(REQUEST as int),
                ValueView::Number(self.id as int),
                Value::Array(content)@,
            ]);
        }
        Ok(Value::Array(message))
    }
}

/// What the peer answers to one call: the value the call returned, or the
/// message of the error it ended in.
#[derive(Debug, PartialEq, Eq)]
pub struct Response {
    pub id: CallId,
    pub outcome: Result<Value, String>,
}

/// What a `Response` holds, all the way down.
pub struct ResponseView {
    pub id: int,
    pub outcome: Result<ValueView, Seq<char>>,
}

impl View for Response {
    type V = ResponseView;

    open spec fn view(&self) -> ResponseView {
        ResponseView {
            id: self.id as int,
            outcome: match self.outcome {
                Ok(value) => Ok(value@),
                Err(message) => Err(message@),
            },
        }
    }
}

/// The response that a structured value from the wire stands for, if it
/// stands for one: a list of three whose first item is the kind of a result
/// or of an exception, whose second is an identifier, and whose third, for
/// an exception, is a string.
pub open spec fn response_on_wire(wire: ValueView) -> Option<ResponseView> {
    match wire {
        ValueView::Array(items) => {
            if items.len() == 3 && items[0] is Number && items[1] is Number && items[1]->Number_0
                >= 0 {
                let kind = items[0]->Number_0;
                let id = items[1]->Number_0;
                if kind == RESULT {
                    Some(ResponseView { id, outcome: Ok(items[2]) })
                } else if kind == EXCEPTION && items[2] is String {
                    Some(ResponseView { id, outcome: Err(items[2]->String_0) })
                } else {
                    None
                }
            } else {
                None
            }
        },
        _ => None,
    }
}

impl Response {
    /// Reads a response out of a structured value from the wire. Anything
    /// that does not have the shape of a response is a decode error.
    pub fn decode(wire: Value) -> (response: Result<Response, RpcError>)
        ensures
            match response {
                Ok(r) => response_on_wire(wire@) == Some(r@),
                Err(error) => error == RpcError::DecodeError && response_on_wire(wire@) is None,
            },
    {
        match wire {
            Value::Array(items) => {
                proof {
                    lemma_array_view(items);
                }
                let mut items = items;
                if items.len() != 3 {
                    return Err(RpcError::DecodeError);
                }
                let ghost all = items@;
                let content = items.pop().unwrap();
                let id = items.pop().unwrap();
                let kind = items.pop().unwrap();
                assert(kind == all[0] && id == all[1] && content == all[2]);
                match (kind, id) {
                    (Value::Number(kind), Value::Number(id)) => {
                        if id < 0 {
                            Err(RpcError::DecodeError)
                        } else if kind == RESULT {
                            Ok(Response { id: id as u64, outcome: Ok(content) })
                        } else if kind == EXCEPTION {
                            match content {
                                Value::String(message) => Ok(
                                    Response { id: id as u64, outcome: Err(message) },
                                ),
                                _ => Err(RpcError::DecodeError),
                            }
                        } else {
                            Err(RpcError::DecodeError)
                        }
                    },
                    _ => Err(RpcError::DecodeError),
                }
            },
            _ => Err(RpcError::DecodeError),
        }
    }
}

} // verus!
